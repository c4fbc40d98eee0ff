use vstd::prelude::*;

use rand::rngs::{OsRng, StdRng};
use rand::{Rng, RngCore, SeedableRng};

verus! {

#[verifier::external_type_specification]
#[verifier::external_body]
pub struct ExStdRng(StdRng);

/// Relies on `SeedableRng::from_rng` over `OsRng`: a cryptographically secure
/// generator seeded by the operating system, or `None` where that source fails.
#[verifier::external_body]
pub(crate) fn os_seeded() -> (r: Option<StdRng>) {
    StdRng::from_rng(OsRng).ok()
}

/// Relies on `Rng::gen_range`: a uniformly drawn index below `bound` (it
/// panics only on an empty range, which `bound > 0` rules out).
#[verifier::external_body]
pub(crate) fn random_below(rng: &mut StdRng, bound: usize) -> (r: usize)
    requires
        bound > 0,
    ensures
        r < bound,
{
    rng.gen_range(0..bound)
}

/// Relies on `RngCore::fill_bytes`: `len` random bytes.
#[verifier::external_body]
pub(crate) fn random_bytes(rng: &mut StdRng, len: usize) -> (r: Vec<u8>)
    ensures
        r@.len() == len,
{
    let mut bytes = vec![0u8; len];
    rng.fill_bytes(&mut bytes);
    bytes
}

} // verus!
