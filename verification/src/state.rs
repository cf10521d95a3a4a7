//! State records and the keys they are compared by.

use vstd::prelude::*;

verus! {

/// What two states are compared by: the name and the movement flag.
pub type StateKey = (Seq<char>, bool);

/// One animation state of an icon, reduced to what duplicate detection reads.
#[derive(Debug)]
pub struct StateRecord {
    pub name: String,
    pub movement: bool,
}

impl View for StateRecord {
    type V = StateKey;

    open spec fn view(&self) -> StateKey {
        (self.name@, self.movement)
    }
}

impl Clone for StateRecord {
    fn clone(&self) -> (copy: Self)
        ensures
            copy@ == self@,
    {
        StateRecord { name: self.name.clone(), movement: self.movement }
    }
}

impl StateRecord {
    /// A record with the given name and movement flag.
    pub fn new(name: &str, movement: bool) -> (record: Self)
        ensures
            record@ == (name@, movement),
    {
        StateRecord { name: name.to_owned(), movement }
    }

    /// Whether `self` and `other` agree on both name and movement flag.
    pub fn same_key(&self, other: &StateRecord) -> (same: bool)
        ensures
            same == (self@ == other@),
    {
        self.movement == other.movement && self.name == other.name
    }
}

/// The keys of a list of records, in the same order.
pub open spec fn keys_of(states: Seq<StateRecord>) -> Seq<StateKey> {
    states.map_values(|s: StateRecord| s@)
}

} // verus!
