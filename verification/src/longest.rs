//! What a scan over the candidates below a bound has to find.

use vstd::prelude::*;
use crate::chain::{chain_fits, chain_len, get_collatz_within, lemma_first_one_unique};

verus! {

/// Every candidate below `limit` has a chain that reaches 1 and whose length
/// can be held in a `u32`. This is what a scan up to `limit` asks of its bound.
pub open spec fn chains_fit_below(limit: usize) -> bool {
    forall|v: usize| 1 <= v < limit ==> chain_fits(v)
}

/// `c` is a candidate in `[lo, hi)` and no candidate in that range has a
/// longer chain.
pub open spec fn attains_longest_in(lo: usize, hi: usize, c: usize) -> bool {
    &&& lo <= c < hi
    &&& forall|v: usize| lo <= v < hi ==> chain_len(v) <= chain_len(c)
}

/// `c` is a candidate in `[2, limit)` and no candidate in that range has a
/// longer chain.
pub open spec fn attains_longest(limit: usize, c: usize) -> bool {
    attains_longest_in(2, limit, c)
}

/// `c` is the smallest candidate in `[2, limit)` with a chain of the greatest
/// length.
pub open spec fn is_first_longest(limit: usize, c: usize) -> bool {
    &&& attains_longest(limit, c)
    &&& forall|v: usize| 2 <= v < c ==> chain_len(v) < chain_len(c)
}

/// Only one candidate in `[2, limit)` has a chain of the greatest length.
pub open spec fn longest_is_unique(limit: usize) -> bool {
    forall|a: usize, b: usize|
        #![trigger attains_longest(limit, a), attains_longest(limit, b)]
        attains_longest(limit, a) && attains_longest(limit, b) ==> a == b
}

/// Tells whether every candidate below `limit` has a chain that reaches 1 and
/// whose length can be held in a `u32`, by walking each chain.
pub fn chains_fit(limit: usize) -> (ok: bool)
    ensures
        ok == chains_fit_below(limit),
{
    proof {
        lemma_first_one_unique(1, 0);
    }
    if limit < 3 {
        return true;
    }
    for v in 2..limit
        invariant
            chain_fits(1),
            forall|w: usize| 2 <= w < v ==> chain_fits(w),
    {
        if get_collatz_within(v, u32::MAX).is_none() {
            assert(!chain_fits(v));
            return false;
        }
    }
    true
}

} // verus!
