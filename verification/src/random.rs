use rand::Rng;
use vstd::prelude::*;

verus! {

/// Calls `rand::Rng::gen_range(0..n)` on the thread's generator: a number
/// below `n`, which `n` must exceed 0 for (the call panics on an empty range).
#[verifier::external_body]
pub(crate) fn random_below(n: usize) -> (r: usize)
    requires
        n > 0,
    ensures
        r < n,
{
    rand::thread_rng().gen_range(0..n)
}

/// Calls `rand::Rng::gen::<u64>()` on the thread's generator: any number.
#[verifier::external_body]
pub(crate) fn random_u64() -> u64 {
    rand::thread_rng().gen::<u64>()
}

/// A number drawn from `lo..hi`.
pub(crate) fn random_in(lo: i32, hi: i32) -> (r: i32)
    requires
        lo < hi,
    ensures
        lo <= r < hi,
{
    let span: i64 = hi as i64 - lo as i64;
    let k = random_below(span as usize);
    (lo as i64 + k as i64) as i32
}

} // verus!
