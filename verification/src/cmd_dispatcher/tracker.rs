//! The commands in flight.
use std::collections::BTreeMap;
use vstd::prelude::*;

use super::dictionary::SEQUENCER_TABLE_SIZE;

verus! {

/// A command in flight.
#[derive(Debug, Clone, Copy, PartialEq, Eq, Structural)]
pub struct SequenceTrackerEntry {
    /// The opcode.
    pub op_code: u32,
    /// The number that the caller knows the command by.
    pub context: u32,
    /// The port of the caller.
    pub caller_port: i16,
}

/// The commands in flight, by the sequence numbers that they were dispatched with.
#[derive(Debug)]
pub struct SequenceTracker {
    entries: BTreeMap<u32, SequenceTrackerEntry>,
}

/// Whether a command can be tracked under a sequence number.
pub open spec fn has_room(in_flight: Map<u32, SequenceTrackerEntry>, key: u32) -> bool {
    in_flight.contains_key(key) || in_flight.len() < SEQUENCER_TABLE_SIZE
}

impl View for SequenceTracker {
    type V = Map<u32, SequenceTrackerEntry>;

    closed spec fn view(&self) -> Map<u32, SequenceTrackerEntry> {
        self.entries@
    }
}

impl SequenceTracker {
    /// No commands in flight.
    pub fn new() -> (r: Self)
        ensures
            r@ == Map::<u32, SequenceTrackerEntry>::empty(),
    {
        SequenceTracker { entries: BTreeMap::new() }
    }

    /// Tracks a command, in place of one with the same sequence number, if there is room.
    pub fn insert(&mut self, key: u32, entry: SequenceTrackerEntry) -> (r: bool)
        ensures
            r == has_room(old(self)@, key),
            final(self)@ == (if r {
                old(self)@.insert(key, entry)
            } else {
                old(self)@
            }),
    {
        broadcast use vstd::std_specs::btree::group_btree_axioms;

        if self.entries.contains_key(&key) || self.entries.len() < SEQUENCER_TABLE_SIZE {
            let _ = self.entries.insert(key, entry);
            true
        } else {
            false
        }
    }

    /// Stops tracking a command.
    pub fn remove(&mut self, key: u32) -> (r: Option<SequenceTrackerEntry>)
        ensures
            final(self)@ == old(self)@.remove(key),
            match r {
                Some(entry) => old(self)@.contains_key(key) && entry == old(self)@[key],
                None => !old(self)@.contains_key(key),
            },
    {
        broadcast use vstd::std_specs::btree::group_btree_axioms;

        self.entries.remove(&key)
    }

    /// The command tracked under a sequence number.
    pub fn get(&self, key: u32) -> (r: Option<SequenceTrackerEntry>)
        ensures
            match r {
                Some(entry) => self@.contains_key(key) && entry == self@[key],
                None => !self@.contains_key(key),
            },
    {
        broadcast use vstd::std_specs::btree::group_btree_axioms;

        match self.entries.get(&key) {
            Some(entry) => Some(*entry),
            None => None,
        }
    }

    /// Stops tracking all commands.
    pub fn clear(&mut self)
        ensures
            final(self)@ == Map::<u32, SequenceTrackerEntry>::empty(),
    {
        self.entries.clear();
    }
}

} // verus!
