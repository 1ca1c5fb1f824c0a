//! Draws from the thread-local random number generator.
//!
//! Everything the simulation asks of chance comes through these two
//! functions; both are integer draws, and nothing beyond the stated
//! range bound can be promised of any single outcome.

use vstd::prelude::*;

verus! {

/// Relies on rand::random_range over `lo..hi`: a draw in the given
/// range, which must not be empty.
#[verifier::external_body]
pub(crate) fn random_usize_in(lo: usize, hi: usize) -> (r: usize)
    requires
        lo < hi,
    ensures
        lo <= r < hi,
{
    rand::random_range(lo..hi)
}

/// Relies on rand::random_ratio: true with chance `num` in `den`; sure
/// only at the two ends.
#[verifier::external_body]
pub(crate) fn random_ratio(num: u32, den: u32) -> (r: bool)
    requires
        den > 0,
        num <= den,
    ensures
        num == 0 ==> !r,
        num == den ==> r,
{
    rand::random_ratio(num, den)
}

} // verus!
