//! The random draws the game makes, taken from the `rand` crate's
//! thread-local generator. Nothing here is proved: each contract states what
//! the generator's documentation and source promise of every outcome.
//!
//! The generator seeds itself from the operating system when a thread first
//! uses it, and gives up if the system has no randomness to offer.

use vstd::prelude::*;
use rand::Rng;

verus! {

/// Draws a number below `bound` with `Rng::gen_range(0, bound)`.
///
/// `gen_range` returns a value in the half-open range from its first
/// argument to its second and panics when the range is empty, which the
/// precondition rules out. Which value comes back is left open.
#[verifier::external_body]
pub(crate) fn random_below(bound: u32) -> (value: u32)
    requires
        bound > 0,
    ensures
        value < bound,
{
    rand::thread_rng().gen_range(0, bound)
}

/// Picks one of the values with `Rng::choose`.
///
/// `choose` returns `None` for an empty slice and otherwise a reference to
/// the element at some index of the slice, which is handed back as a copy.
/// Which element comes back is left open.
#[verifier::external_body]
pub(crate) fn pick_one(values: &Vec<usize>) -> (chosen: Option<usize>)
    ensures
        chosen is Some == (values@.len() > 0),
        chosen is Some ==> values@.contains(chosen.unwrap()),
{
    rand::thread_rng().choose(values).copied()
}

/// Reorders the values in place with `Rng::shuffle`.
///
/// `shuffle` only swaps elements of the slice, so the values afterwards are
/// the values before in some order.
#[verifier::external_body]
pub(crate) fn shuffle(values: &mut Vec<usize>)
    ensures
        final(values)@.to_multiset() == old(values)@.to_multiset(),
{
    rand::thread_rng().shuffle(values)
}

} // verus!
