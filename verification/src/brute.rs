//! The scan that walks every chain in full.

use vstd::prelude::*;
use crate::chain::{chain_fits, chain_len, get_collatz, lemma_reaching_value};
use crate::longest::{chains_fit_below, is_first_longest};

verus! {

/// Finds the candidate below `limit` with the longest chain by walking the
/// chain of each candidate from 2 on, in increasing order.
///
/// The running best starts at candidate 1 with length 1 and is replaced only by
/// a strictly longer chain, so of several longest chains the first one wins.
/// Up to a bound of 2 there is no candidate, and the start values are returned.
pub fn p014_brute(limit: usize) -> (best: (usize, u32))
    requires
        chains_fit_below(limit),
    ensures
        limit <= 2 ==> best == (1usize, 1u32),
        limit > 2 ==> is_first_longest(limit, best.0) && best.1 == chain_len(best.0),
{
    if limit < 3 {
        return (1, 1);
    }
    let mut best: (usize, u32) = (1, 1);
    for x in 2..limit
        invariant
            chains_fit_below(limit),
            x <= 2 ==> best == (1usize, 1u32),
            x > 2 ==> is_first_longest(x, best.0) && best.1 == chain_len(best.0),
    {
        proof {
            assert(chain_fits(x));
            lemma_reaching_value(x);
        }
        let len = get_collatz(x);
        if len > best.1 {
            best = (x, len);
        }
    }
    best
}

} // verus!
