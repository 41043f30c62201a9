use vstd::prelude::*;

verus! {

/// Relies on `rand::Rng::gen_range` over an inclusive range of `i64`, drawn
/// from the thread-local generator `rand::thread_rng`: the value lies in
/// `[lo, hi]`. The call panics on an empty range, which `requires` excludes.
#[verifier::external_body]
pub(crate) fn random_between(lo: i64, hi: i64) -> (r: i64)
    requires
        lo <= hi,
    ensures
        lo <= r <= hi,
{
    rand::Rng::gen_range(&mut rand::thread_rng(), lo..=hi)
}

} // verus!
