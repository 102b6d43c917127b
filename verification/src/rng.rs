use vstd::prelude::*;

verus! {

/// The explicit random-source handle that the turn manager and the
/// computer player draw from. Callers construct it themselves — seeded
/// for a reproducible game, or from entropy — instead of the library
/// reaching for a process-wide generator.
#[verifier::external_type_specification]
#[verifier::external_body]
pub struct ExStdRng(rand::rngs::StdRng);

/// Relies on `rand::RngExt::random_range`: it samples a value from
/// the given range and panics only when the range is empty, which the
/// precondition rules out. Nothing more can be promised of a random
/// draw than its bound.
#[verifier::external_body]
pub(crate) fn random_below(rng: &mut rand::rngs::StdRng, bound: usize) -> (r: usize)
    requires
        bound > 0,
    ensures
        r < bound,
{
    rand::RngExt::random_range(rng, 0..bound)
}

} // verus!
