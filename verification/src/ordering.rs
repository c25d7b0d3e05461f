//! The order of records: by priority, and among equal priorities by the
//! stake of the sender.
use crate::heap::{key_lt, Key};
use crate::record::{DeserializedPacket, ImmutableDeserializedPacket};
use std::cmp::Ordering;
use vstd::prelude::*;
use vstd::std_specs::cmp::PartialOrdSpecImpl;

verus! {

/// How the key `a` stands to the key `b`.
pub open spec fn key_order(a: Key, b: Key) -> Ordering {
    if key_lt(a, b) {
        Ordering::Less
    } else if a == b {
        Ordering::Equal
    } else {
        Ordering::Greater
    }
}

impl ImmutableDeserializedPacket {
    /// How this record stands to the other in the order of records.
    pub fn cmp(&self, other: &Self) -> (order: Ordering)
        ensures
            order == key_order(self.key(), other.key()),
    {
        if self.priority() < other.priority() {
            Ordering::Less
        } else if self.priority() > other.priority() {
            Ordering::Greater
        } else if self.sender_stake() < other.sender_stake() {
            Ordering::Less
        } else if self.sender_stake() > other.sender_stake() {
            Ordering::Greater
        } else {
            Ordering::Equal
        }
    }
}

impl PartialOrd for ImmutableDeserializedPacket {
    fn partial_cmp(&self, other: &Self) -> (order: Option<Ordering>) {
        Some(self.cmp(other))
    }
}

impl PartialOrdSpecImpl for ImmutableDeserializedPacket {
    open spec fn obeys_partial_cmp_spec() -> bool {
        true
    }

    open spec fn partial_cmp_spec(&self, other: &Self) -> Option<Ordering> {
        Some(key_order(self.key(), other.key()))
    }
}

impl DeserializedPacket {
    /// How this envelope stands to the other: as their records do.
    pub fn cmp(&self, other: &Self) -> (order: Ordering)
        ensures
            order == key_order(self.key(), other.key()),
    {
        self.immutable_section().cmp(other.immutable_section())
    }
}

impl PartialOrd for DeserializedPacket {
    fn partial_cmp(&self, other: &Self) -> (order: Option<Ordering>) {
        Some(self.cmp(other))
    }
}

impl PartialOrdSpecImpl for DeserializedPacket {
    open spec fn obeys_partial_cmp_spec() -> bool {
        true
    }

    open spec fn partial_cmp_spec(&self, other: &Self) -> Option<Ordering> {
        Some(key_order(self.key(), other.key()))
    }
}

} // verus!
