//! What holds between the scans, and between a chain and its length.

use vstd::prelude::*;
use crate::chain::{
    chain, chain_len, collatz_step, lemma_first_one_unique, lemma_steps_to_one, reaches_one,
};
use crate::longest::{attains_longest, is_first_longest, longest_is_unique};
use crate::memo::{best_so_far, dense_filled};

verus! {

/// A scan that keeps the first of the longest chains has one possible report
/// for each bound: running it again, with the dense cache, the sparse cache or
/// none, gives the same pair.
pub proof fn lemma_first_longest_is_determined(
    limit: usize,
    first: (usize, u32),
    second: (usize, u32),
)
    requires
        limit <= 2 ==> first == (1usize, 1u32),
        limit > 2 ==> is_first_longest(limit, first.0) && first.1 == chain_len(first.0),
        limit <= 2 ==> second == (1usize, 1u32),
        limit > 2 ==> is_first_longest(limit, second.0) && second.1 == chain_len(second.0),
    ensures
        first == second,
{
}

/// The scan with the dense cache and the scan with the sparse cache report the
/// same pair for every bound.
pub proof fn lemma_dense_and_sparse_agree(
    limit: usize,
    dense: (usize, u32),
    sparse: (usize, u32),
)
    requires
        limit <= 2 ==> dense == (1usize, 1u32),
        limit > 2 ==> is_first_longest(limit, dense.0) && dense.1 == chain_len(dense.0),
        limit <= 2 ==> sparse == (1usize, 1u32),
        limit > 2 ==> is_first_longest(limit, sparse.0) && sparse.1 == chain_len(sparse.0),
    ensures
        dense == sparse,
{
}

/// Where only one candidate has a chain of the greatest length, a scan that
/// may keep any of the longest chains has one possible report as well.
pub proof fn lemma_unique_longest_is_determined(
    limit: usize,
    first: (usize, u32),
    second: (usize, u32),
)
    requires
        longest_is_unique(limit),
        limit <= 2 ==> first == (1usize, 1u32),
        limit > 2 ==> attains_longest(limit, first.0) && first.1 == chain_len(first.0),
        limit <= 2 ==> second == (1usize, 1u32),
        limit > 2 ==> attains_longest(limit, second.0) && second.1 == chain_len(second.0),
    ensures
        first == second,
{
}

/// Where only one candidate has a chain of the greatest length, the parallel
/// scan reports the same pair as the scan that walks every chain in order.
pub proof fn lemma_parallel_agrees_with_brute(
    limit: usize,
    brute: (usize, u32),
    parallel: (usize, u32),
)
    requires
        longest_is_unique(limit),
        limit <= 2 ==> brute == (1usize, 1u32),
        limit > 2 ==> is_first_longest(limit, brute.0) && brute.1 == chain_len(brute.0),
        limit <= 2 ==> parallel == (1usize, 1u32),
        limit > 2 ==> attains_longest(limit, parallel.0) && parallel.1 == chain_len(parallel.0),
    ensures
        brute == parallel,
{
}

/// The chain that `get_collatz_sequence` lists has as many entries as
/// `get_collatz` counts, starts with the value and ends with 1. Each entry but
/// the last differs from 1 and is followed by its Collatz step.
pub proof fn lemma_chain_round_trip(v: usize)
    requires
        reaches_one(v),
    ensures
        chain(v).len() == chain_len(v),
        chain(v).first() == v,
        chain(v).last() == 1,
        forall|k: int|
            0 <= k < chain(v).len() - 1 ==> chain(v)[k] != 1 && chain(v)[k + 1] == collatz_step(
                #[trigger] chain(v)[k],
            ),
{
    lemma_steps_to_one(v);
}

/// From a bound of 2 on, the dense cache holds for the winning candidate one
/// less than the chain length that the scan reports for it.
pub proof fn lemma_cache_is_one_short(
    limit: usize,
    cache: Seq<u32>,
    answer: usize,
    best: (usize, u32),
)
    requires
        limit >= 2,
        cache.len() == limit,
        dense_filled(cache, limit),
        best_so_far(limit, answer),
        limit <= 2 ==> best == (1usize, 1u32),
        limit > 2 ==> is_first_longest(limit, best.0) && best.1 == chain_len(best.0),
    ensures
        answer == best.0,
        cache[best.0 as int] == best.1 - 1,
{
    if limit == 2 {
        lemma_first_one_unique(1, 0);
    }
}

} // verus!
