//! What a sequence file format has to provide.
use vstd::prelude::*;

use super::types::{
    RecordDescriptor, SequenceHeader, SequenceLoadEvent, SequenceRecord, SEQUENCE_HEADER_SIZE,
};
use crate::fw::time::Time;
use crate::fw::types::FileStatus;

verus! {

/// The longest file name that a command can carry.
pub const CMD_STRING_MAX_SIZE: usize = 40;

/// What came of opening and reading a sequence file. The file is read twice: once
/// for the header, once for the rest. `B` holds bytes: a `Vec<u8>` in memory, a
/// `Seq<u8>` in contracts.
#[derive(Debug)]
pub struct FileImage<B = Vec<u8>> {
    /// What came of opening the file.
    pub open: FileStatus,
    /// What came of reading the header.
    pub header: FileStatus,
    /// What came of reading the rest.
    pub records: FileStatus,
    /// The bytes of the file, as far as they were read.
    pub contents: B,
}

impl View for FileImage<Vec<u8>> {
    type V = FileImage<Seq<u8>>;

    open spec fn view(&self) -> FileImage<Seq<u8>> {
        FileImage {
            open: self.open,
            header: self.header,
            records: self.records,
            contents: self.contents@,
        }
    }
}

/// A record as it stands in the file. The end of a sequence has no tag and no
/// command.
#[verifier::ext_equal]
pub struct WireRecord {
    /// The kind of the record.
    pub descriptor: RecordDescriptor,
    /// The seconds of the time tag.
    pub seconds: u32,
    /// The microseconds of the time tag.
    pub useconds: u32,
    /// The command packet.
    pub command: Seq<u8>,
}

impl WireRecord {
    /// The end of a sequence.
    pub open spec fn end() -> WireRecord {
        WireRecord {
            descriptor: RecordDescriptor::EndOfSequence,
            seconds: 0,
            useconds: 0,
            command: Seq::empty(),
        }
    }

    /// What reading this record makes of a record in memory: the end of a sequence
    /// leaves the tag and the command of the record before it, and the tag keeps
    /// its base and context.
    pub open spec fn read_into(self, r: SequenceRecord<Seq<u8>>) -> SequenceRecord<Seq<u8>> {
        if self.descriptor == RecordDescriptor::EndOfSequence {
            SequenceRecord { descriptor: self.descriptor, ..r }
        } else {
            SequenceRecord {
                descriptor: self.descriptor,
                time_tag: Time { seconds: self.seconds, useconds: self.useconds, ..r.time_tag },
                command: self.command,
            }
        }
    }
}

/// A sequence as the sequencer sees it.
#[verifier::ext_equal]
pub struct SequenceState {
    /// How large a file can be loaded.
    pub capacity: nat,
    /// The name of the file.
    pub name: Seq<u8>,
    /// The header, its time base and context replaced by those of the clock.
    pub header: SequenceHeader,
    /// All the records.
    pub records: Seq<WireRecord>,
    /// How many of them have been read.
    pub position: nat,
}

impl SequenceState {
    /// Whether a record is left to read.
    pub open spec fn more(self) -> bool {
        self.position < self.records.len()
    }

    /// The sequence with nothing loaded.
    pub open spec fn cleared(self) -> SequenceState {
        SequenceState { records: Seq::empty(), position: 0, ..self }
    }

    /// The sequence from its first record on.
    pub open spec fn rewound(self) -> SequenceState {
        SequenceState { position: 0, ..self }
    }
}

/// What a load gives.
#[verifier::ext_equal]
pub struct LoadOutcome {
    /// The header that the load leaves, if it got as far as reading one.
    pub header: Option<SequenceHeader>,
    /// The records, or why there are none.
    pub result: Result<Seq<WireRecord>, SequenceLoadEvent>,
}

impl LoadOutcome {
    /// The header after the load, where it was `before`.
    pub open spec fn header_after(self, before: SequenceHeader) -> SequenceHeader {
        match self.header {
            Some(h) => h,
            None => before,
        }
    }
}

/// A sequence file format, with a buffer for one loaded sequence.
pub trait Sequence: Sized {
    /// The sequence that is loaded.
    spec fn state(&self) -> SequenceState;

    /// Whether what is loaded is a whole number of readable records. Only a load
    /// that failed leaves this open.
    spec fn ready(&self) -> bool;

    /// Whether anything is left to read, be it readable or not.
    spec fn pending(&self) -> bool;

    /// The record that stands next, if one can be read.
    spec fn upcoming(&self) -> Option<WireRecord>;

    /// Whether a load of `file` that fails leaves anything to read; `pending` says whether
    /// anything was left before.
    spec fn failure_leaves(
        pending: bool,
        capacity: nat,
        file: FileImage<Seq<u8>>,
        now: Time,
    ) -> bool;

    /// What a load of `file` into a buffer of `capacity` bytes gives at time `now`.
    spec fn load_rule(capacity: nat, file: FileImage<Seq<u8>>, now: Time) -> LoadOutcome;

    /// Whether the load gets by without meeting a time tag of a full second or more of
    /// microseconds, on which the flight software stops.
    spec fn tags_in_range(capacity: nat, file: FileImage<Seq<u8>>, now: Time) -> bool;

    /// Takes a buffer of `bytes` bytes.
    fn allocate_buffer(&mut self, identifier: i32, bytes: usize)
        requires
            bytes >= SEQUENCE_HEADER_SIZE,
        ensures
            final(self).ready(),
            final(self).state() == (SequenceState {
                capacity: bytes as nat,
                ..old(self).state().cleared()
            }),
    ;

    /// Gives the buffer up.
    fn deallocate_buffer(&mut self)
        ensures
            final(self).ready(),
            final(self).state() == (SequenceState { capacity: 0, ..old(self).state().cleared() }),
    ;

    /// How large the buffer is.
    fn capacity(&self) -> (r: usize)
        ensures
            r == self.state().capacity,
    ;

    /// Notes the name of the file.
    fn set_file_name(&mut self, file_name: &[u8])
        requires
            file_name@.len() <= CMD_STRING_MAX_SIZE,
        ensures
            old(self).ready() ==> final(self).ready(),
            final(self).state() == (SequenceState { name: file_name@, ..old(self).state() }),
    ;

    /// The name of the file as a command carries it.
    fn file_name(&self) -> (r: &Vec<u8>)
        ensures
            r@ == self.state().name,
    ;

    /// The name of the file as an event carries it.
    fn log_file_name(&self) -> (r: &Vec<u8>)
        ensures
            r@ == self.state().name,
    ;

    /// The name of the file as telemetry carries it.
    fn string_file_name(&self) -> (r: &Vec<u8>)
        ensures
            r@ == self.state().name,
    ;

    /// The header.
    fn header(&self) -> (r: SequenceHeader)
        ensures
            r == self.state().header,
    ;

    /// Loads and validates a sequence. Where the load fails, the event says why, and what
    /// was read up to there stays until the sequence is cleared.
    fn load_file(
        &mut self,
        file_name: &[u8],
        file: &FileImage<Vec<u8>>,
        current_time: &Time,
        event: &mut Option<SequenceLoadEvent>,
    ) -> (r: bool)
        requires
            file_name@.len() <= CMD_STRING_MAX_SIZE,
            old(self).state().capacity >= SEQUENCE_HEADER_SIZE,
            Self::tags_in_range(old(self).state().capacity, file@, *current_time),
        ensures
            final(self).state().name == file_name@,
            final(self).state().capacity == old(self).state().capacity,
            final(self).state().header == Self::load_rule(
                old(self).state().capacity,
                file@,
                *current_time,
            ).header_after(old(self).state().header),
            match Self::load_rule(old(self).state().capacity, file@, *current_time).result {
                Ok(records) => {
                    &&& r
                    &&& *final(event) == *old(event)
                    &&& final(self).ready()
                    &&& final(self).state().records == records
                    &&& records.len() > 0
                    &&& final(self).state().position == 0
                },
                Err(e) => {
                    &&& !r
                    &&& *final(event) == Some(e)
                    &&& final(self).pending() == Self::failure_leaves(
                        old(self).pending(),
                        old(self).state().capacity,
                        file@,
                        *current_time,
                    )
                },
            },
    ;

    /// Whether the load would get by without meeting a time tag out of range.
    fn accepts_tags(&self, file: &FileImage<Vec<u8>>, current_time: &Time) -> (r: bool)
        ensures
            r == Self::tags_in_range(self.state().capacity, file@, *current_time),
    ;

    /// Whether anything is left to read.
    fn has_more_records(&self) -> (r: bool)
        ensures
            r == self.pending(),
            self.ready() ==> r == self.state().more(),
    ;

    /// Reads the next record.
    fn next_record(&mut self, record: &mut SequenceRecord<Vec<u8>>)
        requires
            old(self).upcoming() is Some || old(self).ready() && old(self).state().more(),
        ensures
            old(self).upcoming() is Some ==> final(record)@ == old(self).upcoming()->0.read_into(
                old(record)@,
            ),
            old(self).ready() && old(self).state().more() ==> {
                &&& final(self).ready()
                &&& final(self).state() == (SequenceState {
                    position: old(self).state().position + 1,
                    ..old(self).state()
                })
                &&& final(record)@ == old(self).state().records[old(
                    self,
                ).state().position as int].read_into(old(record)@)
            },
            old(record)@.time_tag.wf() ==> final(record)@.time_tag.wf(),
    ;

    /// Goes back to the first record.
    fn reset(&mut self)
        ensures
            old(self).ready() ==> final(self).ready() && final(self).state() == old(
                self,
            ).state().rewound(),
    ;

    /// Drops what is loaded.
    fn clear(&mut self)
        ensures
            final(self).ready(),
            final(self).state() == old(self).state().cleared(),
    ;
}

} // verus!
