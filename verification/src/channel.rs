//! How the test file is opened so that the host's cache stays out of the
//! measurement as far as the host allows.
//!
//! No host promises to keep its cache out entirely. The library says which
//! options and hints an open asks for; the driver turns them into the
//! host's flags and makes the call.

use vstd::prelude::*;

verus! {

/// The kinds of host that differ in how caching is kept at bay.
#[derive(Clone, Copy, Debug, PartialEq, Eq, Structural)]
pub enum Platform {
    /// A Unix with a flag for synchronous writes and nothing more.
    Unix,
    /// A Unix that can, besides, exclude an open file from its cache.
    MacOs,
    /// A host with a write-through flag.
    Windows,
}

/// The hint that an open passes to the host.
#[derive(Clone, Copy, Debug, PartialEq, Eq, Structural)]
pub enum CacheHint {
    /// None: the file is opened as any other.
    Buffered,
    /// Every write returns only when the data has reached the device.
    SynchronousWrites,
    /// Writes go through the cache to the device.
    WriteThrough,
}

/// What an open asks for.
#[derive(Clone, Copy, Debug, PartialEq, Eq, Structural)]
pub struct OpenPlan {
    pub read: bool,
    pub write: bool,
    /// Make the file if it is not there.
    pub create: bool,
    /// Empty the file if it is there.
    pub truncate: bool,
    /// The hint to open the file with.
    pub hint: CacheHint,
    /// Tell the host, once the file is open, to keep it out of the cache.
    pub exclude_from_cache: bool,
}

/// The strongest hint that `platform` knows, if `direct` asks for one.
pub open spec fn hint_for(direct: bool, platform: Platform) -> CacheHint {
    if !direct {
        CacheHint::Buffered
    } else {
        match platform {
            Platform::Unix => CacheHint::SynchronousWrites,
            Platform::MacOs => CacheHint::SynchronousWrites,
            Platform::Windows => CacheHint::WriteThrough,
        }
    }
}

/// Whether the file is to be excluded from the cache after the open: where
/// `direct` asks for it and `platform` can do it.
pub open spec fn excludes_for(direct: bool, platform: Platform) -> bool {
    direct && platform == Platform::MacOs
}

/// The plan of an open for writing: the file is made or emptied.
pub open spec fn write_plan(direct: bool, platform: Platform) -> OpenPlan {
    OpenPlan {
        read: false,
        write: true,
        create: true,
        truncate: true,
        hint: hint_for(direct, platform),
        exclude_from_cache: excludes_for(direct, platform),
    }
}

/// The plan of an open for reading: the file must be there and stays as it
/// is.
pub open spec fn read_plan(direct: bool, platform: Platform) -> OpenPlan {
    OpenPlan {
        read: true,
        write: false,
        create: false,
        truncate: false,
        hint: hint_for(direct, platform),
        exclude_from_cache: excludes_for(direct, platform),
    }
}

fn hint(direct: bool, platform: Platform) -> (h: CacheHint)
    ensures
        h == hint_for(direct, platform),
{
    if !direct {
        CacheHint::Buffered
    } else {
        match platform {
            Platform::Unix | Platform::MacOs => CacheHint::SynchronousWrites,
            Platform::Windows => CacheHint::WriteThrough,
        }
    }
}

fn excludes(direct: bool, platform: Platform) -> (e: bool)
    ensures
        e == excludes_for(direct, platform),
{
    direct && matches!(platform, Platform::MacOs)
}

/// What to ask for when the test file is opened for the write pass.
pub fn open_write(direct: bool, platform: Platform) -> (plan: OpenPlan)
    ensures
        plan == write_plan(direct, platform),
{
    OpenPlan {
        read: false,
        write: true,
        create: true,
        truncate: true,
        hint: hint(direct, platform),
        exclude_from_cache: excludes(direct, platform),
    }
}

/// What to ask for when the test file is opened for the read pass.
pub fn open_read(direct: bool, platform: Platform) -> (plan: OpenPlan)
    ensures
        plan == read_plan(direct, platform),
{
    OpenPlan {
        read: true,
        write: false,
        create: false,
        truncate: false,
        hint: hint(direct, platform),
        exclude_from_cache: excludes(direct, platform),
    }
}

} // verus!
