//! The chain of a single starting value: its model and the functions that walk it.

use vstd::prelude::*;
use vstd::arithmetic::div_mod::{lemma_fundamental_div_mod_converse, lemma_small_mod};

verus! {

/// One step on a machine word: an even value is halved, an odd value is tripled
/// and incremented, wrapping around at the word size.
pub open spec fn collatz_step(n: usize) -> usize {
    if n % 2 == 0 {
        (n / 2) as usize
    } else {
        ((3 * n + 1) % (usize::MAX + 1)) as usize
    }
}

/// The value reached from `v` after `k` steps.
pub open spec fn orbit(v: usize, k: nat) -> usize
    decreases k,
{
    if k == 0 {
        v
    } else {
        collatz_step(orbit(v, (k - 1) as nat))
    }
}

/// Some number of steps takes `v` to 1.
pub open spec fn reaches_one(v: usize) -> bool {
    exists|k: nat| orbit(v, k) == 1
}

/// `k` steps take `v` to 1, and no smaller number of steps does.
pub open spec fn first_one_at(v: usize, k: nat) -> bool {
    &&& orbit(v, k) == 1
    &&& forall|j: nat| j < k ==> orbit(v, j) != 1
}

/// The number of steps from `v` to the first 1.
pub open spec fn steps_to_one(v: usize) -> nat
    recommends
        reaches_one(v),
{
    choose|k: nat| first_one_at(v, k)
}

/// The number of values in the chain of `v`, counting both `v` and the final 1.
pub open spec fn chain_len(v: usize) -> nat
    recommends
        reaches_one(v),
{
    steps_to_one(v) + 1
}

/// The chain of `v` reaches 1 and its length can be held in a `u32`.
pub open spec fn chain_fits(v: usize) -> bool {
    reaches_one(v) && chain_len(v) <= u32::MAX
}

/// The chain of `v`: the values visited from `v` up to and including the first 1.
pub open spec fn chain(v: usize) -> Seq<usize>
    recommends
        reaches_one(v),
{
    Seq::new(chain_len(v), |k: int| orbit(v, k as nat))
}

/// Among the first `k + 1` values of an orbit that holds a 1 at index `k`, some
/// index is the first to hold a 1.
proof fn lemma_first_one_exists(v: usize, k: nat)
    requires
        orbit(v, k) == 1,
    ensures
        exists|m: nat| m <= k && first_one_at(v, m),
    decreases k,
{
    if exists|j: nat| j < k && orbit(v, j) == 1 {
        let j = choose|j: nat| j < k && orbit(v, j) == 1;
        lemma_first_one_exists(v, j);
    } else {
        assert(first_one_at(v, k));
    }
}

/// Where `v` reaches 1, `steps_to_one(v)` is the index of the first 1 of its orbit.
pub proof fn lemma_steps_to_one(v: usize)
    requires
        reaches_one(v),
    ensures
        first_one_at(v, steps_to_one(v)),
{
    let k = choose|k: nat| orbit(v, k) == 1;
    lemma_first_one_exists(v, k);
}

/// The index of the first 1 is unique, so any index shown to be the first is
/// `steps_to_one`.
pub proof fn lemma_first_one_unique(v: usize, k: nat)
    requires
        first_one_at(v, k),
    ensures
        reaches_one(v),
        steps_to_one(v) == k,
{
}

/// Where tripling `n` and adding one stays within the word, the step is the
/// Collatz step of the integers.
pub proof fn lemma_step_without_wrap(n: usize)
    requires
        3 * n + 1 <= usize::MAX,
    ensures
        n % 2 == 0 ==> collatz_step(n) == n / 2,
        n % 2 != 0 ==> collatz_step(n) == 3 * n + 1,
{
    lemma_small_mod((3 * n + 1) as nat, (usize::MAX + 1) as nat);
}

/// Walking `a` steps and then `b` more is walking `a + b` steps.
pub proof fn lemma_orbit_add(v: usize, a: nat, b: nat)
    ensures
        orbit(orbit(v, a), b) == orbit(v, a + b),
    decreases b,
{
    if b > 0 {
        lemma_orbit_add(v, a, (b - 1) as nat);
    }
}

/// A chain that has not met 1 in its first `c` values goes on as the chain of
/// the value it has reached: that value reaches 1 too, in `c` fewer steps.
pub proof fn lemma_chain_suffix(v: usize, c: nat)
    requires
        reaches_one(v),
        forall|j: nat| j < c ==> orbit(v, j) != 1,
    ensures
        reaches_one(orbit(v, c)),
        steps_to_one(v) == c + steps_to_one(orbit(v, c)),
{
    lemma_steps_to_one(v);
    let total = steps_to_one(v);
    let w = orbit(v, c);
    let rest = (total - c) as nat;
    lemma_orbit_add(v, c, rest);
    assert forall|j: nat| j < rest implies orbit(w, j) != 1 by {
        lemma_orbit_add(v, c, j);
    }
    lemma_first_one_unique(w, rest);
}

/// Zero is a fixed point of the step, so its orbit never leaves it.
pub proof fn lemma_zero_is_stuck(k: nat)
    ensures
        orbit(0, k) == 0,
    decreases k,
{
    if k > 0 {
        lemma_zero_is_stuck((k - 1) as nat);
    }
}

/// A value that reaches 1 is not zero; it is 1 exactly when it needs no step.
pub proof fn lemma_reaching_value(v: usize)
    requires
        reaches_one(v),
    ensures
        v != 0,
        v == 1 <==> steps_to_one(v) == 0,
{
    lemma_steps_to_one(v);
    lemma_zero_is_stuck(steps_to_one(v));
    if v == 1 {
        lemma_first_one_unique(v, 0);
    }
}

/// Performs one Collatz step, wrapping on overflow.
pub fn step(n: usize) -> (next: usize)
    ensures
        next == collatz_step(n),
{
    if n % 2 == 0 {
        assert(n >> 1 == n / 2) by (bit_vector);
        n >> 1
    } else {
        let next = n.wrapping_mul(3).wrapping_add(1);
        proof {
            let m = usize::MAX + 1;
            let tripled = 3 * n;
            if tripled < m {
                lemma_small_mod(tripled as nat, m as nat);
            } else if tripled < 2 * m {
                lemma_fundamental_div_mod_converse(tripled, m, 1, tripled - m);
            } else {
                lemma_fundamental_div_mod_converse(tripled, m, 2, tripled - 2 * m);
            }
            let sum = tripled + 1;
            if sum < m {
                lemma_step_without_wrap(n);
            } else if sum < 2 * m {
                lemma_fundamental_div_mod_converse(sum, m, 1, sum - m);
            } else {
                lemma_fundamental_div_mod_converse(sum, m, 2, sum - 2 * m);
            }
        }
        next
    }
}

/// Counts the values in the chain of `val`, from `val` itself to the final 1.
pub fn get_collatz(val: usize) -> (len: u32)
    requires
        chain_fits(val),
    ensures
        len == chain_len(val),
{
    let mut n = val;
    let mut cnt: u32 = 1;
    proof {
        lemma_steps_to_one(val);
    }
    while n != 1
        invariant
            first_one_at(val, steps_to_one(val)),
            steps_to_one(val) + 1 <= u32::MAX,
            1 <= cnt,
            cnt - 1 <= steps_to_one(val),
            n == orbit(val, (cnt - 1) as nat),
        decreases steps_to_one(val) - (cnt - 1),
    {
        cnt += 1;
        n = step(n);
    }
    cnt
}

/// Counts the values in the chain of `val` as `get_collatz` does, but gives up
/// once the count would pass `cap`.
///
/// Returns the length exactly when the chain reaches 1 within `cap` values.
pub fn get_collatz_within(val: usize, cap: u32) -> (len: Option<u32>)
    ensures
        match len {
            Some(l) => reaches_one(val) && l == chain_len(val) && l <= cap,
            None => !(reaches_one(val) && chain_len(val) <= cap),
        },
{
    if cap == 0 {
        return None;
    }
    let mut n = val;
    let mut cnt: u32 = 1;
    while n != 1
        invariant
            1 <= cnt <= cap,
            n == orbit(val, (cnt - 1) as nat),
            forall|j: nat| j < cnt - 1 ==> orbit(val, j) != 1,
        decreases cap - cnt,
    {
        if cnt == cap {
            proof {
                if reaches_one(val) {
                    lemma_steps_to_one(val);
                }
            }
            return None;
        }
        cnt += 1;
        n = step(n);
    }
    proof {
        lemma_first_one_unique(val, (cnt - 1) as nat);
    }
    Some(cnt)
}

/// Lists the chain of `val`: every value visited, from `val` to the final 1.
pub fn get_collatz_sequence(val: usize) -> (xs: Vec<usize>)
    requires
        reaches_one(val),
    ensures
        xs@ == chain(val),
{
    let mut n = val;
    let mut xs = vec![val];
    proof {
        lemma_steps_to_one(val);
    }
    while n != 1
        invariant
            first_one_at(val, steps_to_one(val)),
            1 <= xs@.len() <= steps_to_one(val) + 1,
            n == orbit(val, (xs@.len() - 1) as nat),
            forall|k: int| 0 <= k < xs@.len() ==> xs@[k] == orbit(val, k as nat),
        decreases steps_to_one(val) + 1 - xs@.len(),
    {
        n = step(n);
        xs.push(n);
    }
    xs
}

} // verus!
