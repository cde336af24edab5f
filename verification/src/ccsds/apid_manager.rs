//! Sequence counts, one per application.
use vstd::prelude::*;

use crate::fw::bytes;
use crate::fw::decimal;
use crate::fw::text;
use crate::fw::types::{Apid, LogSeverity};

verus! {

/// Counts are this many, then start over.
pub const SEQ_COUNT_MODULUS: u32 = 16384;

/// `UnexpectedSequenceCount`.
pub const EVENTID_UNEXPECTED_SEQUENCE_COUNT: u32 = 0;

/// The count after `seq_count`, within fourteen bits.
pub open spec fn next_count(seq_count: u16) -> u16 {
    ((seq_count + 1) % SEQ_COUNT_MODULUS as int) as u16
}

/// What is reported of a count that was received where another was expected.
pub open spec fn count_events(expected: u16, received: u16) -> Seq<ApidManagerEvent> {
    if received == expected {
        Seq::empty()
    } else {
        seq![ApidManagerEvent::UnexpectedSequenceCount { transmitted: received, expected }]
    }
}

/// What the manager reports.
#[derive(Debug, Clone, Copy, PartialEq, Eq, Structural)]
pub enum ApidManagerEvent {
    /// A received count is not the one that was expected.
    UnexpectedSequenceCount {
        /// The count that was received.
        transmitted: u16,
        /// The count that was expected.
        expected: u16,
    },
}

impl ApidManagerEvent {
    /// The arguments on the wire.
    pub open spec fn wire(self) -> Seq<u8> {
        match self {
            ApidManagerEvent::UnexpectedSequenceCount { transmitted, expected } => bytes::be16(
                transmitted,
            ) + bytes::be16(expected),
        }
    }

    /// The event identifier, relative to the component's base.
    pub fn id(&self) -> (r: u32)
        ensures
            r == EVENTID_UNEXPECTED_SEQUENCE_COUNT,
    {
        EVENTID_UNEXPECTED_SEQUENCE_COUNT
    }

    /// How serious the event is.
    pub fn severity(&self) -> (r: LogSeverity)
        ensures
            r == LogSeverity::WarningLo,
    {
        LogSeverity::WarningLo
    }

    /// The arguments on the wire.
    pub fn args(&self) -> (r: Vec<u8>)
        ensures
            r@ == self.wire(),
    {
        let mut out: Vec<u8> = Vec::new();
        match self {
            ApidManagerEvent::UnexpectedSequenceCount { transmitted, expected } => {
                bytes::push_u16(&mut out, *transmitted);
                bytes::push_u16(&mut out, *expected);
            },
        }
        assert(out@ =~= self.wire());
        out
    }
}

impl ApidManagerEvent {
    /// The text of the event.
    pub open spec fn spec_text(self) -> Seq<u8> {
        match self {
            ApidManagerEvent::UnexpectedSequenceCount { transmitted, expected } =>
                text::words("Unexpected sequence count received. Packets may have been dropped. Transmitted: "@)
                + decimal::digits(transmitted as nat) + text::words(" | Expected on board: "@)
                + decimal::digits(expected as nat),
        }
    }

    /// The text of the event.
    pub fn text(&self) -> (r: Vec<u8>)
        ensures
            r@ == self.spec_text(),
    {
        match self {
            ApidManagerEvent::UnexpectedSequenceCount { transmitted, expected } => {
                let mut out: Vec<u8> = text::begin("Unexpected sequence count received. Packets may have been dropped. Transmitted: ");
                text::push_number(&mut out, *transmitted as u64);
                text::push_words(&mut out, " | Expected on board: ");
                text::push_number(&mut out, *expected as u64);
                out
            },
        }
    }
}

/// The next count of one application.
#[derive(Debug, Clone, Copy, PartialEq, Eq, Structural)]
pub struct SeqEntry {
    /// The application.
    pub apid: Apid,
    /// Its next count.
    pub count: u16,
}

/// Whether an entry of the table is for `apid`.
pub open spec fn is_for(entry: Option<SeqEntry>, apid: Apid) -> bool {
    entry is Some && entry->0.apid == apid
}

/// Keeps the next sequence count of every application, in a table with one slot for
/// each.
#[derive(Debug)]
pub struct ApidManager {
    entries: Vec<Option<SeqEntry>>,
}

impl ApidManager {
    /// How many applications the table has room for.
    pub const MAX_TRACKED_APIDS: usize = 12;

    /// There is a slot for every application, no application has two slots, and every
    /// count fits fourteen bits.
    pub closed spec fn wf(self) -> bool {
        &&& self.entries@.len() == Self::MAX_TRACKED_APIDS
        &&& forall|i: int, j: int|
            0 <= i < j < self.entries@.len() && (#[trigger] self.entries@[i]) is Some && (
            #[trigger] self.entries@[j]) is Some ==> self.entries@[i]->0.apid != self.entries@[j]->0.apid
        &&& forall|i: int|
            0 <= i < self.entries@.len() && (#[trigger] self.entries@[i]) is Some
                ==> self.entries@[i]->0.count < SEQ_COUNT_MODULUS
    }

    /// The next count of an application; zero where it has not been seen.
    pub closed spec fn next(self, apid: Apid) -> u16 {
        if exists|i: int| 0 <= i < self.entries@.len() && is_for(#[trigger] self.entries@[i], apid) {
            let i = choose|i: int|
                0 <= i < self.entries@.len() && is_for(#[trigger] self.entries@[i], apid);
            self.entries@[i]->0.count
        } else {
            0
        }
    }

    /// A table with no application seen.
    pub fn new() -> (r: Self)
        ensures
            r.wf(),
            forall|apid: Apid| r.next(apid) == 0,
    {
        let mut entries: Vec<Option<SeqEntry>> = Vec::new();
        let mut i: usize = 0;
        while i < Self::MAX_TRACKED_APIDS
            invariant
                i <= Self::MAX_TRACKED_APIDS,
                entries@.len() == i,
                forall|j: int| 0 <= j < i ==> (#[trigger] entries@[j]) is None,
            decreases Self::MAX_TRACKED_APIDS - i,
        {
            entries.push(None);
            i += 1;
        }
        ApidManager { entries }
    }

    /// The count after `seq_count`, within fourteen bits.
    pub fn calculate_next_seq_count(seq_count: u16) -> (r: u16)
        ensures
            r == next_count(seq_count),
    {
        ((seq_count as u32 + 1) % SEQ_COUNT_MODULUS) as u16
    }

    /// The slot of an application.
    fn find(&self, apid: Apid) -> (r: Option<usize>)
        ensures
            match r {
                Some(i) => i < self.entries@.len() && is_for(self.entries@[i as int], apid),
                None => forall|i: int|
                    0 <= i < self.entries@.len() ==> !is_for(#[trigger] self.entries@[i], apid),
            },
    {
        let mut i: usize = 0;
        while i < self.entries.len()
            invariant
                i <= self.entries@.len(),
                forall|j: int| 0 <= j < i ==> !is_for(#[trigger] self.entries@[j], apid),
            decreases self.entries@.len() - i,
        {
            match self.entries[i] {
                Some(entry) => {
                    if entry.apid == apid {
                        return Some(i);
                    }
                },
                None => {},
            }
            i += 1;
        }
        None
    }

    /// The first slot that is free.
    fn free_slot(&self, apid: Apid) -> (r: usize)
        requires
            self.wf(),
            forall|i: int| 0 <= i < self.entries@.len() ==> !is_for(#[trigger] self.entries@[i], apid),
        ensures
            r < self.entries@.len(),
            self.entries@[r as int] is None,
            forall|i: int| 0 <= i < r ==> (#[trigger] self.entries@[i]) is Some,
    {
        let mut i: usize = 0;
        while i < self.entries.len()
            invariant
                i <= self.entries@.len(),
                forall|j: int| 0 <= j < i ==> (#[trigger] self.entries@[j]) is Some,
            decreases self.entries@.len() - i,
        {
            if self.entries[i].is_none() {
                return i;
            }
            i += 1;
        }
        proof {
            self.lemma_not_full(apid);
        }
        0
    }

    /// A table without a slot for some application has a free slot.
    proof fn lemma_not_full(self, apid: Apid)
        requires
            self.wf(),
            forall|i: int| 0 <= i < self.entries@.len() ==> !is_for(#[trigger] self.entries@[i], apid),
        ensures
            exists|i: int| 0 <= i < self.entries@.len() && (#[trigger] self.entries@[i]) is None,
    {
        if !(exists|i: int| 0 <= i < self.entries@.len() && (#[trigger] self.entries@[i]) is None) {
            let n = Self::MAX_TRACKED_APIDS as int;
            let used = Seq::new(n as nat, |i: int| self.entries@[i]->0.apid.index() as int);
            assert(used.no_duplicates()) by {
                assert forall|i: int, j: int|
                    0 <= i < used.len() && 0 <= j < used.len() && i != j implies used[i] != used[j] by {
                    assert(self.entries@[i]->0.apid != self.entries@[j]->0.apid);
                    crate::fw::types::law_apid_round_trip(
                        self.entries@[i]->0.apid,
                        self.entries@[j]->0.apid,
                    );
                }
            }
            used.unique_seq_to_set();
            let all = vstd::set_lib::set_int_range(0, n);
            vstd::set_lib::lemma_int_range(0, n);
            let rest = all.remove(apid.index() as int);
            crate::fw::types::law_apid_round_trip(apid, apid);
            assert(used.to_set().subset_of(rest)) by {
                assert forall|x: int| used.to_set().contains(x) implies rest.contains(x) by {
                    let i = choose|i: int| 0 <= i < used.len() && used[i] == x;
                    assert(!is_for(self.entries@[i], apid));
                    crate::fw::types::law_apid_round_trip(self.entries@[i]->0.apid, apid);
                }
            }
            vstd::set_lib::lemma_len_subset(used.to_set(), rest);
        }
    }

    /// Sets the next count of an application.
    fn store(&mut self, apid: Apid, count: u16)
        requires
            old(self).wf(),
            count < SEQ_COUNT_MODULUS,
        ensures
            final(self).wf(),
            final(self).next(apid) == count,
            forall|other: Apid| other != apid ==> final(self).next(other) == old(self).next(other),
    {
        let ghost before = *self;
        let slot: usize = match self.find(apid) {
            Some(i) => i,
            None => self.free_slot(apid),
        };
        self.entries.set(slot, Some(SeqEntry { apid, count }));
        proof {
            let k = slot as int;
            assert(is_for(self.entries@[k], apid));
            assert forall|i: int|
                0 <= i < self.entries@.len() && is_for(#[trigger] self.entries@[i], apid) implies i
                == k by {
                if i != k {
                    assert(self.entries@[i] == before.entries@[i]);
                    assert(is_for(before.entries@[i], apid));
                    if is_for(before.entries@[k], apid) {
                        if i < k {
                            assert(before.entries@[i]->0.apid != before.entries@[k]->0.apid);
                        } else {
                            assert(before.entries@[k]->0.apid != before.entries@[i]->0.apid);
                        }
                    }
                }
            }
            assert forall|other: Apid| other != apid implies self.next(other) == before.next(
                other,
            ) by {
                self.lemma_next_elsewhere(before, other, k);
            }
        }
    }

    proof fn lemma_next_elsewhere(self, before: Self, other: Apid, k: int)
        requires
            before.wf(),
            self.wf(),
            0 <= k < before.entries@.len(),
            !is_for(before.entries@[k], other),
            !is_for(self.entries@[k], other),
            self.entries@ == before.entries@.update(k, self.entries@[k]),
        ensures
            self.next(other) == before.next(other),
    {
        if exists|i: int| 0 <= i < self.entries@.len() && is_for(#[trigger] self.entries@[i], other) {
            let i = choose|i: int|
                0 <= i < self.entries@.len() && is_for(#[trigger] self.entries@[i], other);
            assert(is_for(before.entries@[i], other));
            let j = choose|j: int|
                0 <= j < before.entries@.len() && is_for(#[trigger] before.entries@[j], other);
            assert(i == j);
        } else {
            assert forall|j: int| 0 <= j < before.entries@.len() implies !is_for(
                #[trigger] before.entries@[j],
                other,
            ) by {
                if j != k {
                    assert(self.entries@[j] == before.entries@[j]);
                    assert(!is_for(self.entries@[j], other));
                }
            }
        }
    }

    fn get_and_increment(&mut self, apid: Apid) -> (r: u16)
        requires
            old(self).wf(),
        ensures
            final(self).wf(),
            r == old(self).next(apid),
            final(self).next(apid) == next_count(r),
            forall|other: Apid| other != apid ==> final(self).next(other) == old(self).next(other),
    {
        let seq_count: u16 = match self.find(apid) {
            Some(i) => {
                proof {
                    let k = i as int;
                    let j = choose|j: int|
                        0 <= j < self.entries@.len() && is_for(#[trigger] self.entries@[j], apid);
                    assert(is_for(self.entries@[k], apid));
                    assert(j == k);
                }
                match self.entries[i] {
                    Some(entry) => entry.count,
                    None => 0,
                }
            },
            None => 0,
        };
        self.store(apid, Self::calculate_next_seq_count(seq_count));
        seq_count
    }

    /// Hands out the next count of an application.
    pub fn get_apid_seq_count_in(&mut self, apid: Apid) -> (r: u16)
        requires
            old(self).wf(),
        ensures
            final(self).wf(),
            r == old(self).next(apid),
            final(self).next(apid) == next_count(r),
            forall|other: Apid| other != apid ==> final(self).next(other) == old(self).next(other),
    {
        self.get_and_increment(apid)
    }

    /// Takes note of a received count, and reports it where it is not the expected one.
    /// Counting goes on from what was received, which is also what is returned.
    pub fn validate_apid_seq_count_in(
        &mut self,
        apid: Apid,
        received: u16,
        out: &mut Vec<ApidManagerEvent>,
    ) -> (r: u16)
        requires
            old(self).wf(),
        ensures
            final(self).wf(),
            r == received,
            final(self).next(apid) == next_count(received),
            forall|other: Apid| other != apid ==> final(self).next(other) == old(self).next(other),
            final(out)@ == (if received == old(self).next(apid) {
                old(out)@
            } else {
                old(out)@.push(
                    ApidManagerEvent::UnexpectedSequenceCount {
                        transmitted: received,
                        expected: old(self).next(apid),
                    },
                )
            }),
            final(out)@ == old(out)@ + count_events(old(self).next(apid), received),
    {
        let ghost start = out@;
        let expected: u16 = self.get_and_increment(apid);
        if received != expected {
            self.store(apid, Self::calculate_next_seq_count(received));
            out.push(
                ApidManagerEvent::UnexpectedSequenceCount { transmitted: received, expected },
            );
        }
        assert(out@ =~= start + count_events(expected, received));
        received
    }
}

/// The count that comes `n` after `count`.
pub open spec fn count_after(count: u16, n: nat) -> u16
    decreases n,
{
    if n == 0 {
        count
    } else {
        next_count(count_after(count, (n - 1) as nat))
    }
}

/// Counts fit fourteen bits, run on by one, and start over after the last.
pub proof fn law_counts_run_on(count: u16, n: nat)
    requires
        count < SEQ_COUNT_MODULUS,
    ensures
        count_after(count, n) == (count + n) % SEQ_COUNT_MODULUS as int,
        count_after(count, n) < SEQ_COUNT_MODULUS,
    decreases n,
{
    if n > 0 {
        law_counts_run_on(count, (n - 1) as nat);
        vstd::arithmetic::div_mod::lemma_add_mod_noop(count + n - 1, 1, SEQ_COUNT_MODULUS as int);
    }
}

/// Within one round of counting no count is handed out twice.
pub proof fn law_counts_are_unique(count: u16, i: nat, j: nat)
    requires
        count < SEQ_COUNT_MODULUS,
        i < j < i + SEQ_COUNT_MODULUS,
    ensures
        count_after(count, i) != count_after(count, j),
{
    law_counts_run_on(count, i);
    law_counts_run_on(count, j);
}

/// The count after a count is the next number, of which only the last fourteen bits are kept;
/// so any number at all has one, and it fits.
pub proof fn law_next_count(seq_count: u16)
    ensures
        next_count(seq_count) == (seq_count + 1) % 16384,
{
}

/// An unexpected count is reported with what was received and then what was expected, in two
/// bytes each.
pub proof fn law_event_arguments(e: ApidManagerEvent)
    ensures
        e.wire().len() == 4,
        bytes::sum_of_two(e.wire(), 0) == e->transmitted,
        bytes::sum_of_two(e.wire(), 2) == e->expected,
{
}

/// A count is reported exactly where it is not the one that was expected, once, with both of them.
pub proof fn law_unexpected_counts_are_reported(expected: u16, received: u16)
    ensures
        count_events(expected, received).len() == 0 <==> received == expected,
        received != expected ==> {
            &&& count_events(expected, received).len() == 1
            &&& count_events(expected, received)[0]->transmitted == received
            &&& count_events(expected, received)[0]->expected == expected
        },
{
}

} // verus!
