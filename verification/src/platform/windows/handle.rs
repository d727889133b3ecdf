//! Wide-string helper shared across Win32 calls.

use vstd::prelude::*;

verus! {

/// Index of the first NUL of `s`, or its length.
pub open spec fn nul_index(s: Seq<u16>) -> int
    decreases s.len(),
{
    if s.len() == 0 {
        0
    } else if s[0] == 0 {
        0
    } else {
        1 + nul_index(s.drop_first())
    }
}

/// The part of a fixed-size wide buffer before its first NUL.
pub fn strip_nul(slice: &[u16]) -> (r: &[u16])
    ensures
        r@ == slice@.take(nul_index(slice@)),
{
    let n = slice.len();
    let mut end: usize = 0;
    assert(slice@.skip(0) == slice@);
    while end < n && slice[end] != 0
        invariant
            n == slice@.len(),
            end <= n,
            nul_index(slice@) == end + nul_index(slice@.skip(end as int)),
        decreases n - end,
    {
        assert(slice@.skip(end as int).drop_first() == slice@.skip(end + 1));
        end = end + 1;
    }
    &slice[0..end]
}

} // verus!
