//! The two scans that remember the chains of the candidates already seen.
//!
//! Candidates are taken in increasing order. A walk that drops below its own
//! starting value has reached a candidate whose steps are already recorded, and
//! stops there. The records count steps, one less than the values of a chain;
//! a report adds the one back.

use vstd::prelude::*;
use std::collections::HashMap;
use crate::chain::{
    chain_fits, chain_len, first_one_at, lemma_chain_suffix, lemma_reaching_value,
    lemma_steps_to_one, orbit, step, steps_to_one,
};
use crate::longest::{chains_fit_below, is_first_longest};

verus! {

broadcast use vstd::std_specs::hash::group_hash_axioms;

/// The running best once the candidates below `next` have been seen: the
/// start value 1 while no candidate from 2 on has been seen, then the smallest
/// of those seen with the greatest number of steps.
pub open spec fn best_so_far(next: usize, answer: usize) -> bool {
    if next <= 2 {
        answer == 1
    } else {
        is_first_longest(next, answer)
    }
}

/// The dense cache holds, for each candidate from 1 up to `next`, the number
/// of steps of its chain, and 0 in every other slot.
pub open spec fn dense_filled(cache: Seq<u32>, next: usize) -> bool {
    forall|v: int|
        0 <= v < cache.len() ==> #[trigger] cache[v] == if 1 <= v < next {
            steps_to_one(v as usize)
        } else {
            0
        }
}

/// The sparse cache holds exactly the candidates from 2 up to `next`, each
/// with the number of steps of its chain.
pub open spec fn sparse_filled(cache: Map<usize, u32>, next: usize) -> bool {
    forall|v: usize|
        (#[trigger] cache.contains_key(v) <==> 2 <= v < next) && (2 <= v < next ==> cache[v]
            == steps_to_one(v))
}

/// Scans the candidates from 1 up to `limit` with a cache of `limit` slots,
/// indexed by candidate, and returns the cache with the winning candidate.
///
/// Every slot starts at 0 and is written once, when its candidate has been
/// walked; slot 0 is never written. The winner changes only on a strictly
/// greater number of steps, so candidate 1, with no step, never replaces the
/// start value.
pub fn dense_cache(limit: usize) -> (filled: (Vec<u32>, usize))
    requires
        chains_fit_below(limit),
    ensures
        filled.0@.len() == limit,
        dense_filled(filled.0@, limit),
        best_so_far(limit, filled.1),
{
    let mut cache: Vec<u32> = vec![0; limit];
    let mut max: u32 = 0;
    let mut answer: usize = 1;
    if limit < 2 {
        return (cache, answer);
    }
    proof {
        assert(chain_fits(1));
        lemma_reaching_value(1);
    }
    for i in 1..limit
        invariant
            chains_fit_below(limit),
            cache@.len() == limit,
            dense_filled(cache@, i),
            best_so_far(i, answer),
            max == steps_to_one(answer),
    {
        let mut n = i;
        let mut cnt: u32 = 0;
        proof {
            assert(chain_fits(1) && chain_fits(i));
            lemma_reaching_value(1);
            lemma_steps_to_one(i);
        }
        while n != 1
            invariant_except_break
                n == orbit(i, cnt as nat),
                cnt <= steps_to_one(i),
            invariant
                1 <= i < limit,
                cache@.len() == limit,
                dense_filled(cache@, i),
                chain_fits(i),
                first_one_at(i, steps_to_one(i)),
            ensures
                cnt == steps_to_one(i),
            decreases steps_to_one(i) - cnt,
        {
            cnt += 1;
            n = step(n);
            if n < i {
                proof {
                    lemma_chain_suffix(i, cnt as nat);
                    lemma_reaching_value(n);
                }
                cnt += cache[n];
                break;
            }
        }
        cache[i] = cnt;
        if cnt > max {
            max = cnt;
            answer = i
        }
    }
    (cache, answer)
}

/// Finds the candidate below `limit` with the longest chain, with a dense cache.
///
/// Of several longest chains the first one wins. Up to a bound of 2 the report
/// is candidate 1 with length 1.
pub fn p014_vect(limit: usize) -> (best: (usize, u32))
    requires
        chains_fit_below(limit),
    ensures
        limit <= 2 ==> best == (1usize, 1u32),
        limit > 2 ==> is_first_longest(limit, best.0) && best.1 == chain_len(best.0),
{
    if limit < 2 {
        return (1, 1);
    }
    let (cache, answer) = dense_cache(limit);
    proof {
        assert(chain_fits(answer));
        lemma_reaching_value(answer);
    }
    (answer, cache[answer] + 1)
}

/// Scans the candidates from 2 up to `limit` with a cache keyed by candidate,
/// and returns the cache with the winning candidate.
///
/// An entry is inserted once, when its candidate has been walked. A walk that
/// drops to 1 finds no entry and has already counted all its steps.
pub fn sparse_cache(limit: usize) -> (filled: (HashMap<usize, u32>, usize))
    requires
        chains_fit_below(limit),
    ensures
        sparse_filled(filled.0@, limit),
        best_so_far(limit, filled.1),
{
    let mut cache: HashMap<usize, u32> = HashMap::with_capacity(limit);
    let mut max: u32 = 0;
    let mut answer: usize = 1;
    if limit < 3 {
        return (cache, answer);
    }
    proof {
        assert(chain_fits(1));
        lemma_reaching_value(1);
    }
    for i in 2..limit
        invariant
            chains_fit_below(limit),
            sparse_filled(cache@, i),
            best_so_far(i, answer),
            max == steps_to_one(answer),
    {
        let mut n = i;
        let mut cnt: u32 = 0;
        proof {
            assert(chain_fits(1) && chain_fits(i));
            lemma_reaching_value(1);
            lemma_steps_to_one(i);
        }
        while n != 1
            invariant_except_break
                n == orbit(i, cnt as nat),
                cnt <= steps_to_one(i),
            invariant
                2 <= i < limit,
                sparse_filled(cache@, i),
                chain_fits(i),
                first_one_at(i, steps_to_one(i)),
            ensures
                cnt == steps_to_one(i),
            decreases steps_to_one(i) - cnt,
        {
            cnt += 1;
            n = step(n);
            if n < i {
                proof {
                    lemma_chain_suffix(i, cnt as nat);
                    lemma_reaching_value(n);
                }
                match cache.get(&n) {
                    Some(v) => cnt += *v,
                    None => (),
                }
                break;
            }
        }
        cache.insert(i, cnt);
        if cnt > max {
            max = cnt;
            answer = i
        }
    }
    (cache, answer)
}

/// Finds the candidate below `limit` with the longest chain, with a sparse cache.
///
/// Of several longest chains the first one wins. Up to a bound of 2 the report
/// is candidate 1 with length 1.
pub fn p014_map(limit: usize) -> (best: (usize, u32))
    requires
        chains_fit_below(limit),
    ensures
        limit <= 2 ==> best == (1usize, 1u32),
        limit > 2 ==> is_first_longest(limit, best.0) && best.1 == chain_len(best.0),
{
    if limit < 3 {
        return (1, 1);
    }
    let (cache, answer) = sparse_cache(limit);
    proof {
        assert(chain_fits(answer));
    }
    (answer, *cache.get(&answer).unwrap() + 1)
}

} // verus!
