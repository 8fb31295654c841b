//! The scan that hands the candidates out to a pool of worker threads.
//!
//! No chain length is remembered here: every worker walks its chains in full,
//! so the workers share nothing. Which of several longest chains is reported
//! is left open.

use vstd::prelude::*;
use std::cmp::Ordering;
use rayon::iter::{IntoParallelIterator, ParallelIterator};
use crate::chain::{chain_fits, chain_len, get_collatz};
use crate::longest::{attains_longest, attains_longest_in, chains_fit_below};

verus! {

/// Pairs a candidate with the length of its chain.
fn with_length(x: usize) -> (entry: (usize, u32))
    requires
        chain_fits(x),
    ensures
        entry.0 == x,
        entry.1 == chain_len(x),
{
    (x, get_collatz(x))
}

/// Orders two entries by chain length alone.
fn by_length(a: &(usize, u32), b: &(usize, u32)) -> (o: Ordering)
    ensures
        match o {
            Ordering::Less => a.1 < b.1,
            Ordering::Equal => a.1 == b.1,
            Ordering::Greater => a.1 > b.1,
        },
{
    a.1.cmp(&b.1)
}

/// Runs rayon over the candidates in `[lo, hi)`: `into_par_iter` on the range,
/// `map` with `with_length`, then `max_by` with `by_length`.
///
/// Trusted, from rayon's documentation of `max_by`: an empty range gives
/// `None`; otherwise the result is one of the mapped entries, and none of the
/// others is greater under the comparison. Rayon does not say in which order
/// entries are compared, so nothing is claimed about which of several equally
/// long chains is returned. The precondition is that of `with_length` for each
/// candidate of the range. Rayon starts its global thread pool on first use;
/// a failure to start it is outside this contract.
#[verifier::external_body]
fn par_longest_in(lo: usize, hi: usize) -> (found: Option<(usize, u32)>)
    requires
        forall|v: usize| lo <= v < hi ==> chain_fits(v),
    ensures
        match found {
            Some(entry) => attains_longest_in(lo, hi, entry.0) && entry.1 == chain_len(entry.0),
            None => lo >= hi,
        },
{
    (lo..hi).into_par_iter().map(with_length).max_by(by_length)
}

/// Finds a candidate below `limit` with the longest chain, walking the chains
/// of the candidates from 2 on in parallel.
///
/// Where several candidates share the greatest length, any of them may be
/// reported. Up to a bound of 2 the report is candidate 1 with length 1.
pub fn p014_parallel(limit: usize) -> (best: (usize, u32))
    requires
        chains_fit_below(limit),
    ensures
        limit <= 2 ==> best == (1usize, 1u32),
        limit > 2 ==> attains_longest(limit, best.0) && best.1 == chain_len(best.0),
{
    if limit < 3 {
        return (1, 1);
    }
    par_longest_in(2, limit).unwrap()
}

} // verus!
