//! Draws from the thread's random number generator.

use rand::seq::SliceRandom;
use rand::Rng;
use vstd::prelude::*;

verus! {

/// One draw of `rand::Rng::gen_range` over `low..high` from `rand::thread_rng()`.
/// Trusted: the draw lies in the range, its lower end included and its upper
/// end excluded. Which value comes is left open, and two draws may differ.
/// An empty range makes `gen_range` panic, so it is ruled out.
#[verifier::external_body]
pub(crate) fn random_in_range(low: i64, high: i64) -> (r: i64)
    requires
        low < high,
    ensures
        low <= r < high,
{
    rand::thread_rng().gen_range(low..high)
}

/// One draw of `rand::seq::SliceRandom::choose` from `rand::thread_rng()`.
/// Trusted: an empty list gives `None`, any other list gives one of its
/// elements. Which one comes is left open.
#[verifier::external_body]
pub(crate) fn random_element<T: Copy>(items: &Vec<T>) -> (r: Option<T>)
    ensures
        items@.len() == 0 ==> r.is_none(),
        items@.len() > 0 ==> r.is_some() && items@.contains(r.unwrap()),
{
    items.choose(&mut rand::thread_rng()).copied()
}

} // verus!
