use rand::Rng;
use vstd::prelude::*;

verus! {

/// Calls `rand::random::<usize>()`, which draws a value from the thread-local
/// generator. Nothing is promised of the value: it depends on chance.
#[verifier::external_body]
pub(crate) fn random_usize() -> usize {
    rand::random::<usize>()
}

/// Calls `Rng::gen_range(lo..hi)` on `rand::thread_rng()`. The rand source shows
/// that it panics on an empty range and otherwise returns a value inside it;
/// which value depends on chance.
#[verifier::external_body]
pub(crate) fn random_in_range(lo: i64, hi: i64) -> (r: i64)
    requires
        lo < hi,
    ensures
        lo <= r < hi,
{
    rand::thread_rng().gen_range(lo..hi)
}

} // verus!
