//! The parameters of one benchmark run.

use vstd::prelude::*;

verus! {

/// The name of the test file in the directory under test.
pub const TEMP_FILE_NAME: &'static str = ".usbbench.tmp";

/// The name of the log in the directory under test.
pub const LOG_FILE_NAME: &'static str = "crabwise.log";

/// The size of a run where none is given.
pub const DEFAULT_SIZE: &'static str = "1G";

/// The size of a block where none is given.
pub const DEFAULT_BLOCK: &'static str = "4M";

/// Why a set of parameters cannot describe a run.
#[derive(Clone, Copy, Debug, PartialEq, Eq, Structural)]
pub enum ConfigError {
    /// The block size is zero.
    ZeroBlock,
    /// The block size exceeds the total size.
    BlockExceedsTotal,
}

/// Whether `total_bytes` and `block_bytes` describe a run: the block is
/// not empty and not larger than the whole transfer.
pub open spec fn sizes_valid(total_bytes: u64, block_bytes: u64) -> bool {
    0 < block_bytes && block_bytes <= total_bytes
}

/// The verdict on a pair of sizes: `Ok` exactly for valid sizes, and
/// otherwise the first rule that is broken.
pub open spec fn sizes_verdict(total_bytes: u64, block_bytes: u64) -> Result<(), ConfigError> {
    if block_bytes == 0 {
        Err(ConfigError::ZeroBlock)
    } else if block_bytes > total_bytes {
        Err(ConfigError::BlockExceedsTotal)
    } else {
        Ok(())
    }
}

/// Checks the two sizes of a run. Nothing is read or written: a run whose
/// block is larger than its total is refused here, before any file exists.
pub fn check_sizes(total_bytes: u64, block_bytes: u64) -> (r: Result<(), ConfigError>)
    ensures
        r == sizes_verdict(total_bytes, block_bytes),
        r is Ok <==> sizes_valid(total_bytes, block_bytes),
        block_bytes > total_bytes ==> r is Err,
{
    if block_bytes == 0 {
        Err(ConfigError::ZeroBlock)
    } else if block_bytes > total_bytes {
        Err(ConfigError::BlockExceedsTotal)
    } else {
        Ok(())
    }
}

/// What a [`BenchmarkConfig`] holds, as plain values.
pub struct ConfigView {
    pub total_bytes: u64,
    pub block_bytes: u64,
    pub target_directory: Seq<char>,
    pub keep_file: bool,
}

/// The parameters of one run. A value of this type always has valid sizes:
/// `0 < block_bytes <= total_bytes`.
#[derive(Debug)]
pub struct BenchmarkConfig {
    total_bytes: u64,
    block_bytes: u64,
    target_directory: String,
    keep_file: bool,
}

impl View for BenchmarkConfig {
    type V = ConfigView;

    closed spec fn view(&self) -> ConfigView {
        ConfigView {
            total_bytes: self.total_bytes,
            block_bytes: self.block_bytes,
            target_directory: self.target_directory@,
            keep_file: self.keep_file,
        }
    }
}

impl BenchmarkConfig {
    #[verifier::type_invariant]
    spec fn sizes_hold(self) -> bool {
        sizes_valid(self.total_bytes, self.block_bytes)
    }

    /// Builds the parameters of a run, or says which size rule is broken.
    pub fn new(total_bytes: u64, block_bytes: u64, target_directory: String, keep_file: bool) -> (r:
        Result<BenchmarkConfig, ConfigError>)
        ensures
            r is Ok <==> sizes_valid(total_bytes, block_bytes),
            r matches Ok(c) ==> c@ == (ConfigView {
                total_bytes,
                block_bytes,
                target_directory: target_directory@,
                keep_file,
            }),
            r matches Err(e) ==> sizes_verdict(total_bytes, block_bytes) == Err::<(), ConfigError>(e),
    {
        match check_sizes(total_bytes, block_bytes) {
            Ok(()) => Ok(BenchmarkConfig { total_bytes, block_bytes, target_directory, keep_file }),
            Err(e) => Err(e),
        }
    }

    /// The number of bytes that a pass moves.
    pub fn total_bytes(&self) -> (n: u64)
        ensures
            n == self@.total_bytes,
    {
        self.total_bytes
    }

    /// The number of bytes of one write or read call: never zero, never
    /// more than the total.
    pub fn block_bytes(&self) -> (n: u64)
        ensures
            n == self@.block_bytes,
            sizes_valid(self@.total_bytes, n),
    {
        proof {
            use_type_invariant(self);
        }
        self.block_bytes
    }

    /// The directory in which the test file is made.
    pub fn target_directory(&self) -> (d: &str)
        ensures
            d@ == self@.target_directory,
    {
        self.target_directory.as_str()
    }

    /// Whether the test file stays after the run.
    pub fn keep_file(&self) -> (k: bool)
        ensures
            k == self@.keep_file,
    {
        self.keep_file
    }
}

} // verus!
