//! The loaded icon, as the `dmi` crate hands it over.
//!
//! An icon is opaque to the verifier. What the contracts know of it is the
//! list of its states' keys, [`icon_keys`], and the two accessors below are
//! trusted to read that list faithfully.

use crate::state::{StateKey, StateRecord, keys_of};
use dmi::icon::Icon;
use vstd::prelude::*;

verus! {

/// `dmi::icon::Icon`, carried through as an opaque value.
#[verifier::external_type_specification]
#[verifier::external_body]
pub struct ExIcon(dmi::icon::Icon);

/// The (name, movement) pairs of an icon's states, in declaration order: for
/// each element of `Icon::states`, its `name` and `movement` fields.
pub uninterp spec fn icon_keys(icon: Icon) -> Seq<StateKey>;

/// The length of `Icon::states`. Trusted: it is taken to be the number of
/// keys of the icon.
#[verifier::external_body]
pub(crate) fn state_count(icon: &Icon) -> (count: usize)
    ensures
        count == icon_keys(*icon).len(),
{
    icon.states.len()
}

/// The `name` and `movement` fields of the state at `index` in
/// `Icon::states`. Trusted: they are taken to be the key at that position.
#[verifier::external_body]
pub(crate) fn state_record(icon: &Icon, index: usize) -> (record: StateRecord)
    requires
        index < icon_keys(*icon).len(),
    ensures
        record@ == icon_keys(*icon)[index as int],
{
    let state = &icon.states[index];
    StateRecord { name: state.name.clone(), movement: state.movement }
}

/// The states of an icon as records, in declaration order.
pub fn state_records(icon: &Icon) -> (records: Vec<StateRecord>)
    ensures
        keys_of(records@) == icon_keys(*icon),
{
    let count = state_count(icon);
    let mut records: Vec<StateRecord> = Vec::with_capacity(count);
    let mut i: usize = 0;
    while i < count
        invariant
            i <= count,
            count == icon_keys(*icon).len(),
            keys_of(records@) == icon_keys(*icon).take(i as int),
        decreases count - i,
    {
        let record = state_record(icon, i);
        let ghost before = records@;
        records.push(record);
        assert(keys_of(records@) =~= keys_of(before).push(record@));
        assert(icon_keys(*icon).take(i + 1) =~= icon_keys(*icon).take(i as int).push(record@));
        i += 1;
    }
    assert(icon_keys(*icon).take(i as int) =~= icon_keys(*icon));
    records
}

} // verus!
