//! The library's source of randomness: the thread-local generator of `rand`.
//!
//! Nothing in this file is proved. Each function states what holds of every
//! value the generator can hand back, and the rest of the library is verified
//! against those statements alone. The generator stops the program when the
//! operating system cannot supply it with entropy; no contract here can rule
//! that out.

use vstd::prelude::*;
use rand::Rng;
use rand::seq::SliceRandom;

verus! {

/// Calls `rand::Rng::gen_range(0..bound)` on `rand::thread_rng()`, for a
/// signed 32-bit value.
///
/// The generator documents a value inside the half-open range, and a panic on
/// an empty range, which `bound > 0` rules out.
#[verifier::external_body]
pub(crate) fn draw_below(bound: i32) -> (drawn: i32)
    requires
        bound > 0,
    ensures
        0 <= drawn < bound,
{
    rand::thread_rng().gen_range(0..bound)
}

/// Calls `rand::Rng::gen_range(0..bound)` on `rand::thread_rng()`, for an
/// index.
///
/// The generator documents a value inside the half-open range, and a panic on
/// an empty range, which `bound > 0` rules out.
#[verifier::external_body]
pub(crate) fn draw_index(bound: usize) -> (drawn: usize)
    requires
        bound > 0,
    ensures
        drawn < bound,
{
    rand::thread_rng().gen_range(0..bound)
}

/// Calls `rand::Rng::gen_ratio(numerator, denominator)` on
/// `rand::thread_rng()`: true with `numerator` chances in `denominator`.
///
/// The generator documents a panic where the denominator is zero or the
/// numerator exceeds it, that equal numbers always give true, and that a
/// numerator of zero always gives false. Of any other ratio nothing is
/// claimed of the value that comes back.
#[verifier::external_body]
pub(crate) fn draw_ratio(numerator: u32, denominator: u32) -> (hit: bool)
    requires
        0 < denominator,
        numerator <= denominator,
    ensures
        numerator == denominator ==> hit,
        numerator == 0 ==> !hit,
{
    rand::thread_rng().gen_ratio(numerator, denominator)
}

/// Calls `rand::seq::SliceRandom::shuffle` on the vector's slice with
/// `rand::thread_rng()`.
///
/// The shuffle only swaps elements in place, so the vector holds the same
/// elements as before, each as often as before, in some order.
#[verifier::external_body]
pub(crate) fn shuffle(items: &mut Vec<usize>)
    ensures
        final(items)@.to_multiset() == old(items)@.to_multiset(),
{
    items.shuffle(&mut rand::thread_rng());
}

/// Calls `rand::seq::SliceRandom::choose` on the vector's slice with
/// `rand::thread_rng()`.
///
/// An empty slice gives `None`; any other gives one of its elements.
#[verifier::external_body]
pub(crate) fn pick_one(items: &Vec<usize>) -> (picked: Option<usize>)
    ensures
        items@.len() == 0 ==> picked.is_none(),
        items@.len() > 0 ==> picked.is_some() && items@.contains(picked.unwrap()),
{
    items.choose(&mut rand::thread_rng()).copied()
}

} // verus!
