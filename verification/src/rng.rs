//! Random draws, taken through the `rand` crate. Nothing is assumed of
//! an outcome beyond its range.

use vstd::prelude::*;

verus! {

/// Relies on rand::Rng::gen_range over the half-open range `lo..hi`: the
/// result lies within the range. An empty range would make the call
/// panic, so the range is required to be nonempty.
#[verifier::external_body]
pub(crate) fn draw_in_range(lo: u64, hi: u64) -> (r: u64)
    requires
        lo < hi,
    ensures
        lo <= r < hi,
{
    rand::Rng::gen_range(&mut rand::thread_rng(), lo..hi)
}

/// Relies on rand::Rng::gen at type bool: a coin flip, of whose outcome
/// nothing is promised.
#[verifier::external_body]
pub(crate) fn draw_bool() -> bool {
    rand::Rng::gen(&mut rand::thread_rng())
}

} // verus!
