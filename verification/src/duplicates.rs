//! The search for states that repeat an earlier state of the same icon.

use crate::state::{StateKey, StateRecord, keys_of};
use vstd::prelude::*;

verus! {

/// The key at position `i` already occurs at an earlier position.
pub open spec fn seen_before(keys: Seq<StateKey>, i: int) -> bool {
    exists|j: int| 0 <= j < i && keys[j] == keys[i]
}

/// The positions whose key already occurs earlier, in increasing order.
pub open spec fn duplicate_positions(keys: Seq<StateKey>) -> Seq<int>
    decreases keys.len(),
{
    if keys.len() == 0 {
        Seq::empty()
    } else {
        let earlier = duplicate_positions(keys.drop_last());
        if seen_before(keys, keys.len() - 1) {
            earlier.push(keys.len() - 1)
        } else {
            earlier
        }
    }
}

/// The number of states that repeat an earlier one.
pub open spec fn duplicate_count(keys: Seq<StateKey>) -> nat {
    duplicate_positions(keys).len()
}

/// The positions of `found`, as mathematical integers.
pub open spec fn positions_of(found: Seq<usize>) -> Seq<int> {
    found.map_values(|p: usize| p as int)
}

/// Whether an earlier state repeats at `i` depends only on the keys up to `i`.
proof fn lemma_seen_before_prefix(keys: Seq<StateKey>, n: int, i: int)
    requires
        0 <= i < n <= keys.len(),
    ensures
        seen_before(keys.take(n), i) == seen_before(keys, i),
{
    if seen_before(keys, i) {
        let j = choose|j: int| 0 <= j < i && keys[j] == keys[i];
        assert(keys.take(n)[j] == keys.take(n)[i]);
    }
    if seen_before(keys.take(n), i) {
        let j = choose|j: int| 0 <= j < i && keys.take(n)[j] == keys.take(n)[i];
        assert(keys[j] == keys[i]);
    }
}

/// Extending the list by one state extends the findings by at most that state.
proof fn lemma_duplicate_positions_step(keys: Seq<StateKey>, n: int)
    requires
        0 <= n < keys.len(),
    ensures
        duplicate_positions(keys.take(n + 1)) == if seen_before(keys, n) {
            duplicate_positions(keys.take(n)).push(n)
        } else {
            duplicate_positions(keys.take(n))
        },
{
    let longer = keys.take(n + 1);
    assert(longer.drop_last() =~= keys.take(n));
    lemma_seen_before_prefix(keys, n + 1, n);
}

/// The findings are exactly the positions that repeat an earlier key, each
/// listed once and in increasing order.
pub proof fn lemma_duplicate_positions_exact(keys: Seq<StateKey>)
    ensures
        forall|a: int|
            0 <= a < duplicate_positions(keys).len() ==> {
                let p = #[trigger] duplicate_positions(keys)[a];
                0 <= p < keys.len() && seen_before(keys, p)
            },
        forall|a: int, b: int|
            0 <= a < b < duplicate_positions(keys).len() ==> duplicate_positions(keys)[a]
                < duplicate_positions(keys)[b],
        forall|p: int|
            0 <= p < keys.len() && seen_before(keys, p) ==> duplicate_positions(keys).contains(p),
    decreases keys.len(),
{
    if keys.len() > 0 {
        let n = keys.len() - 1;
        let shorter = keys.drop_last();
        let earlier = duplicate_positions(shorter);
        let all = duplicate_positions(keys);
        lemma_duplicate_positions_exact(shorter);
        assert(shorter =~= keys.take(n));
        assert forall|a: int| 0 <= a < all.len() implies {
            let p = #[trigger] all[a];
            0 <= p < keys.len() && seen_before(keys, p)
        } by {
            if a < earlier.len() {
                assert(all[a] == earlier[a]);
                lemma_seen_before_prefix(keys, n, earlier[a]);
            }
        }
        assert forall|a: int, b: int| 0 <= a < b < all.len() implies all[a] < all[b] by {
            assert(all[a] == earlier[a]);
            if b < earlier.len() {
                assert(all[b] == earlier[b]);
            }
        }
        assert forall|p: int| 0 <= p < keys.len() && seen_before(keys, p) implies all.contains(
            p,
        ) by {
            if p < n {
                lemma_seen_before_prefix(keys, n, p);
                let a = choose|a: int| 0 <= a < earlier.len() && earlier[a] == p;
                assert(all[a] == p);
            } else {
                assert(all[all.len() - 1] == p);
            }
        }
    }
}

/// The number of findings is the number of states less the number of distinct
/// (name, movement) pairs among them.
pub proof fn lemma_duplicates_complement_distinct(keys: Seq<StateKey>)
    ensures
        keys.to_set().finite(),
        duplicate_count(keys) == keys.len() - keys.to_set().len(),
    decreases keys.len(),
{
    vstd::seq_lib::seq_to_set_is_finite(keys);
    if keys.len() == 0 {
        assert(keys.to_set() =~= Set::<StateKey>::empty());
    } else {
        let n = keys.len() - 1;
        let shorter = keys.drop_last();
        lemma_duplicates_complement_distinct(shorter);
        assert(keys.to_set() =~= shorter.to_set().insert(keys[n])) by {
            assert forall|x: StateKey| keys.to_set().contains(x) implies shorter.to_set().insert(
                keys[n],
            ).contains(x) by {
                let j = choose|j: int| 0 <= j < keys.len() && keys[j] == x;
                if j < n {
                    assert(shorter[j] == x);
                }
            }
            assert forall|x: StateKey| shorter.to_set().insert(keys[n]).contains(
                x,
            ) implies keys.to_set().contains(x) by {
                if x != keys[n] {
                    let j = choose|j: int| 0 <= j < shorter.len() && shorter[j] == x;
                    assert(keys[j] == x);
                }
            }
        }
        if seen_before(keys, n) {
            let j = choose|j: int| 0 <= j < n && keys[j] == keys[n];
            assert(shorter[j] == keys[n]);
            assert(shorter.to_set().contains(keys[n]));
        } else {
            if shorter.to_set().contains(keys[n]) {
                let j = choose|j: int| 0 <= j < shorter.len() && shorter[j] == keys[n];
                assert(keys[j] == keys[n]);
            }
        }
    }
}

/// Two states that share a name but differ in the movement flag never make
/// each other a finding: a list that holds just the two has none.
pub proof fn lemma_movement_variants_are_distinct(name: Seq<char>)
    ensures
        duplicate_count(seq![(name, false), (name, true)]) == 0,
        duplicate_count(seq![(name, true), (name, false)]) == 0,
{
    lemma_no_findings_without_repeats(seq![(name, false), (name, true)]);
    lemma_no_findings_without_repeats(seq![(name, true), (name, false)]);
}

/// A list in which no key occurs twice has no findings, and only such a list.
pub proof fn lemma_no_findings_without_repeats(keys: Seq<StateKey>)
    ensures
        keys.no_duplicates() <==> duplicate_count(keys) == 0,
{
    lemma_duplicate_positions_exact(keys);
    if keys.no_duplicates() && duplicate_count(keys) > 0 {
        let p = duplicate_positions(keys)[0];
        let j = choose|j: int| 0 <= j < p && keys[j] == keys[p];
        assert(false);
    }
    if duplicate_count(keys) == 0 && !keys.no_duplicates() {
        let (a, b) = choose|a: int, b: int|
            0 <= a < keys.len() && 0 <= b < keys.len() && a != b && keys[a] == keys[b];
        if a < b {
            assert(seen_before(keys, b));
            assert(duplicate_positions(keys).contains(b));
        } else {
            assert(seen_before(keys, a));
            assert(duplicate_positions(keys).contains(a));
        }
    }
}

/// Finds every state that repeats an earlier one.
///
/// States are visited in declaration order. A state whose name and movement
/// flag both equal those of a state before it is reported by its position; the
/// first state with a given key is never reported.
pub fn find_duplicates(states: &Vec<StateRecord>) -> (found: Vec<usize>)
    ensures
        positions_of(found@) == duplicate_positions(keys_of(states@)),
{
    let ghost keys = keys_of(states@);
    let mut firsts: Vec<usize> = Vec::with_capacity(states.len());
    let mut found: Vec<usize> = Vec::new();
    let mut i: usize = 0;
    while i < states.len()
        invariant
            i <= states.len(),
            keys == keys_of(states@),
            positions_of(found@) == duplicate_positions(keys.take(i as int)),
            forall|k: int| 0 <= k < firsts.len() ==> (#[trigger] firsts[k]) < i,
            forall|j: int|
                0 <= j < i ==> exists|k: int|
                    0 <= k < firsts.len() && keys[firsts[k] as int] == #[trigger] keys[j],
        decreases states.len() - i,
    {
        let mut repeated = false;
        let mut k: usize = 0;
        while k < firsts.len() && !repeated
            invariant
                i < states.len(),
                k <= firsts.len(),
                keys == keys_of(states@),
                forall|m: int| 0 <= m < firsts.len() ==> (#[trigger] firsts[m]) < i,
                repeated ==> seen_before(keys, i as int),
                !repeated ==> forall|m: int|
                    0 <= m < k ==> keys[(#[trigger] firsts[m]) as int] != keys[i as int],
            decreases firsts.len() - k + if repeated { 0int } else { 1int },
        {
            if states[firsts[k]].same_key(&states[i]) {
                assert(keys[firsts[k as int] as int] == keys[i as int]);
                repeated = true;
            } else {
                k += 1;
            }
        }
        proof {
            if !repeated && seen_before(keys, i as int) {
                let j = choose|j: int| 0 <= j < i && keys[j] == keys[i as int];
                let m = choose|m: int|
                    0 <= m < firsts.len() && keys[firsts[m] as int] == keys[j];
                assert(keys[firsts[m] as int] != keys[i as int]);
            }
            lemma_duplicate_positions_step(keys, i as int);
        }
        let ghost found_before = found@;
        let ghost firsts_before = firsts@;
        if repeated {
            found.push(i);
            assert(positions_of(found@) =~= positions_of(found_before).push(i as int));
            proof {
                let j = choose|j: int| 0 <= j < i && keys[j] == keys[i as int];
                let m = choose|m: int|
                    0 <= m < firsts.len() && keys[firsts[m] as int] == keys[j];
                assert(keys[firsts[m] as int] == keys[i as int]);
            }
        } else {
            firsts.push(i);
            assert(keys[firsts[firsts.len() - 1] as int] == keys[i as int]);
            assert forall|j: int| 0 <= j < i implies exists|m: int|
                0 <= m < firsts.len() && keys[firsts[m] as int] == #[trigger] keys[j] by {
                let m = choose|m: int|
                    0 <= m < firsts_before.len() && keys[firsts_before[m] as int] == keys[j];
                assert(firsts[m] == firsts_before[m]);
            }
        }
        i += 1;
    }
    assert(keys.take(i as int) =~= keys);
    found
}

} // verus!
