//! The random draws that a password is made from.
//!
//! The generator is `rand`'s `StdRng`. Nothing is assumed of a draw beyond the
//! range it falls in, so what is proved of a password holds for every outcome.

use rand::rngs::StdRng;
use rand::Rng;
use rand::SeedableRng;
use vstd::prelude::*;

verus! {

/// `rand::rngs::StdRng`, whose state Verus does not look into.
#[verifier::external_type_specification]
#[verifier::external_body]
pub struct ExStdRng(StdRng);

/// Calls `Rng::random_range` on the half-open range from 0 to `n`.
///
/// Trusted: the value drawn lies in that range. The call panics on an empty
/// range, which `n > 0` rules out.
#[verifier::external_body]
pub(crate) fn random_below(rng: &mut StdRng, n: usize) -> (r: usize)
    requires
        n > 0,
    ensures
        r < n,
{
    rng.random_range(0..n)
}

/// Calls `rand::rng` for the generator of the current thread and
/// `SeedableRng::from_rng` to seed a new `StdRng` from it.
///
/// Trusted: nothing is claimed of the generator that comes back.
#[verifier::external_body]
pub(crate) fn seeded_from_thread() -> StdRng {
    StdRng::from_rng(&mut rand::rng())
}

} // verus!
