//! The block of bytes that the write pass writes over and over.
//!
//! What the bytes are does not matter to the timing; they only have to be
//! hard to compress or deduplicate for the controller of the device. They
//! come from a small pseudo-random generator with a fixed seed.

use vstd::prelude::*;
use rand::rngs::SmallRng;
use rand::RngCore;
use rand::SeedableRng;

verus! {

/// The seed of the generator.
pub const PAYLOAD_SEED: u64 = 0x5EED_CAFE;

/// `SmallRng` of rand, a small pseudo-random generator. Its state is not
/// looked into.
#[verifier::external_type_specification]
#[verifier::external_body]
pub struct ExSmallRng(SmallRng);

/// `SmallRng::seed_from_u64` of rand: a generator made from a 64-bit seed.
/// Nothing is claimed of the generator.
#[verifier::external_body]
fn seeded_generator(seed: u64) -> SmallRng {
    SmallRng::seed_from_u64(seed)
}

/// `RngCore::fill_bytes` of rand on a `SmallRng`: overwrites the bytes of
/// `block` in place. The claim is only that `block` keeps its length; which
/// bytes it holds then depends on the generator, whose algorithm differs
/// between 32-bit and 64-bit hosts.
#[verifier::external_body]
fn fill_from(generator: &mut SmallRng, block: &mut Vec<u8>)
    ensures
        final(block)@.len() == old(block)@.len(),
{
    generator.fill_bytes(block);
}

/// A block of `block_bytes` pseudo-random bytes, made once per run, or
/// `None` where a block of that size cannot be addressed on this host.
pub fn make_payload(block_bytes: u64) -> (r: Option<Vec<u8>>)
    ensures
        r is Some <==> block_bytes <= usize::MAX,
        r matches Some(block) ==> block@.len() == block_bytes,
{
    if block_bytes > usize::MAX as u64 {
        return None;
    }
    let mut block: Vec<u8> = vec![0u8; block_bytes as usize];
    let mut generator = seeded_generator(PAYLOAD_SEED);
    fill_from(&mut generator, &mut block);
    Some(block)
}

} // verus!
