//! The check of one icon: its findings, and the running count they raise.

use crate::duplicates::{
    duplicate_count, duplicate_positions, find_duplicates, lemma_duplicate_positions_exact,
    lemma_duplicates_complement_distinct, positions_of,
};
use crate::icon::{icon_keys, state_records};
use crate::message::{duplicate_line, format_duplicate, texts};
use crate::state::{StateKey, StateRecord, keys_of};
use dmi::icon::Icon;
use vstd::prelude::*;

verus! {

/// A running count raised by `by` findings. The count stops at the largest
/// value that a process can hand back as its exit status.
pub open spec fn raised(count: int, by: nat) -> int {
    if count + by > i32::MAX {
        i32::MAX as int
    } else {
        count + by
    }
}

/// One line per finding among `keys`, in the order of the findings.
pub open spec fn duplicate_lines(path: Seq<char>, keys: Seq<StateKey>, annotate: bool) -> Seq<
    Seq<char>,
> {
    duplicate_positions(keys).map_values(|p: int| duplicate_line(path, keys[p].0, annotate))
}

/// Checks the states of one icon for repeats.
///
/// Returns one line for each state whose name and movement flag both equal
/// those of an earlier state in the list, naming `path` and the state, and
/// raises `error_count` by the number of such states.
pub fn check_states(
    states: &Vec<StateRecord>,
    path: &str,
    error_count: &mut i32,
    actions_fmt: bool,
) -> (lines: Vec<String>)
    ensures
        texts(lines@) == duplicate_lines(path@, keys_of(states@), actions_fmt),
        lines@.len() == states@.len() - keys_of(states@).to_set().len(),
        *final(error_count) == raised(*old(error_count) as int, duplicate_count(keys_of(states@))),
{
    let ghost keys = keys_of(states@);
    let ghost start = *error_count as int;
    let found = find_duplicates(states);
    proof {
        lemma_duplicate_positions_exact(keys);
        lemma_duplicates_complement_distinct(keys);
    }
    let mut lines: Vec<String> = Vec::with_capacity(found.len());
    let mut k: usize = 0;
    while k < found.len()
        invariant
            k <= found.len(),
            keys == keys_of(states@),
            positions_of(found@) == duplicate_positions(keys),
            forall|a: int|
                0 <= a < duplicate_positions(keys).len() ==> 0 <= (
                #[trigger] duplicate_positions(keys)[a]) < keys.len(),
            texts(lines@) == duplicate_lines(path@, keys, actions_fmt).take(k as int),
            *error_count == raised(start, k as nat),
        decreases found.len() - k,
    {
        let p = found[k];
        assert(p as int == duplicate_positions(keys)[k as int]) by {
            assert(positions_of(found@)[k as int] == found@[k as int] as int);
        }
        assert(keys[p as int] == states@[p as int]@);
        let line = format_duplicate(path, states[p].name.as_str(), actions_fmt);
        let ghost lines_before = lines@;
        lines.push(line);
        assert(texts(lines@) =~= texts(lines_before).push(line@));
        assert(duplicate_lines(path@, keys, actions_fmt).take(k + 1) =~= duplicate_lines(
            path@,
            keys,
            actions_fmt,
        ).take(k as int).push(line@));
        if *error_count < i32::MAX {
            *error_count += 1;
        }
        k += 1;
    }
    assert(duplicate_lines(path@, keys, actions_fmt).take(k as int) =~= duplicate_lines(
        path@,
        keys,
        actions_fmt,
    ));
    assert(texts(lines@).len() == lines@.len());
    lines
}

/// Checks that the icon loaded from `path` has no duplicate states.
///
/// Returns one line for each state that repeats an earlier state of the icon,
/// and raises `error_count` by their number.
pub fn check_dmi(dmi: &Icon, path: &str, error_count: &mut i32, actions_fmt: bool) -> (lines: Vec<
    String,
>)
    ensures
        texts(lines@) == duplicate_lines(path@, icon_keys(*dmi), actions_fmt),
        lines@.len() == icon_keys(*dmi).len() - icon_keys(*dmi).to_set().len(),
        *final(error_count) == raised(*old(error_count) as int, duplicate_count(icon_keys(*dmi))),
{
    let states = state_records(dmi);
    assert(keys_of(states@).len() == states@.len());
    check_states(&states, path, error_count, actions_fmt)
}

} // verus!
