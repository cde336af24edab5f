//! Enumerations, the sequence header, records and load events.
use vstd::prelude::*;

use crate::fw::bytes;
use crate::fw::time::{Time, TimeBase, FW_CONTEXT_DONT_CARE};

verus! {

broadcast use crate::fw::bytes::lemma_be32_len;

/// How many raw argument bytes a sequence can be handed.
pub const SEQUENCE_ARGUMENTS_MAX_SIZE: usize = 255;

/// How many bytes the header of a sequence file takes.
pub const SEQUENCE_HEADER_SIZE: usize = 11;

/// How many bytes the trailing checksum of a sequence file takes.
pub const SEQUENCE_CRC_SIZE: usize = 4;

/// The raw argument bytes of a sequence.
#[derive(Debug, Clone, Copy, PartialEq, Eq)]
pub struct SeqArgsBuffer(pub [u8; 255]);

/// Arguments handed to a sequence.
#[derive(Debug, Clone, Copy, PartialEq, Eq)]
pub struct SeqArgs {
    /// How many bytes of `buffer` are meant.
    pub size: u64,
    /// The raw bytes.
    pub buffer: SeqArgsBuffer,
}

impl SeqArgs {
    /// How many bytes the arguments take on the wire.
    pub const SERIALIZED_SIZE: usize = 263;

    /// The arguments on the wire: the size, then all the raw bytes.
    pub open spec fn wire(self) -> Seq<u8> {
        bytes::be64(self.size) + self.buffer.0@
    }

    /// The arguments on the wire.
    pub fn serialize(&self) -> (r: Vec<u8>)
        ensures
            r@ == self.wire(),
            r@.len() == Self::SERIALIZED_SIZE,
    {
        let mut out: Vec<u8> = Vec::new();
        bytes::push_u64(&mut out, self.size);
        let ghost before = out@;
        let mut i: usize = 0;
        while i < 255
            invariant
                i <= 255,
                out@ == before + self.buffer.0@.take(i as int),
            decreases 255 - i,
        {
            out.push(self.buffer.0[i]);
            i += 1;
            assert(out@ =~= before + self.buffer.0@.take(i as int));
        }
        assert(self.buffer.0@.take(255) =~= self.buffer.0@);
        assert(out@ =~= self.wire());
        out
    }
}

impl Default for SeqArgs {
    fn default() -> (r: Self)
        ensures
            r.size == 0,
            r.buffer.0@ == Seq::new(255, |i: int| 0u8),
    {
        let r = SeqArgs { size: 0, buffer: SeqArgsBuffer([0u8; 255]) };
        assert(r.buffer.0@ =~= Seq::new(255, |i: int| 0u8));
        r
    }
}

/// Whether a run command is answered when the sequence ends or at once.
#[derive(Debug, Clone, Copy, PartialEq, Eq, Structural)]
pub enum BlockState {
    /// Answer only when the sequence completes or fails.
    Block,
    /// Answer at once.
    NoBlock,
}

impl BlockState {
    /// The number that stands for the state on the wire.
    pub open spec fn code(self) -> u8 {
        match self {
            BlockState::Block => 0,
            BlockState::NoBlock => 1,
        }
    }

    /// The state that a number stands for, if any.
    pub open spec fn of_code(v: u8) -> Option<BlockState> {
        if v == 0 {
            Some(BlockState::Block)
        } else if v == 1 {
            Some(BlockState::NoBlock)
        } else {
            None
        }
    }

    /// The number that stands for the state on the wire.
    pub fn as_repr(self) -> (r: u8)
        ensures
            r == self.code(),
    {
        match self {
            BlockState::Block => 0,
            BlockState::NoBlock => 1,
        }
    }

    /// The state that a number stands for, if any.
    pub fn from_repr(v: u8) -> (r: Option<Self>)
        ensures
            r == BlockState::of_code(v),
    {
        if v == 0 {
            Some(BlockState::Block)
        } else if v == 1 {
            Some(BlockState::NoBlock)
        } else {
            None
        }
    }
}

/// The stepping mode as it is reported. Mind that the numbers run the other way
/// round than those of [`StepMode`].
#[derive(Debug, Clone, Copy, PartialEq, Eq, Structural)]
pub enum SeqMode {
    /// Records advance on command only.
    Step,
    /// Records advance on their own.
    Auto,
}

impl SeqMode {
    /// The number that stands for the mode on the wire.
    pub open spec fn code(self) -> u8 {
        match self {
            SeqMode::Step => 0,
            SeqMode::Auto => 1,
        }
    }

    /// The number that stands for the mode on the wire.
    pub fn as_repr(self) -> (r: u8)
        ensures
            r == self.code(),
    {
        match self {
            SeqMode::Step => 0,
            SeqMode::Auto => 1,
        }
    }
}

impl SeqMode {
    /// What a text calls the mode.
    pub open spec fn spec_label(self) -> Seq<char> {
        match self {
            SeqMode::Step => "Step"@,
            SeqMode::Auto => "Auto"@,
        }
    }

    /// What a text calls the mode.
    pub fn label(&self) -> (r: &'static str)
        ensures
            r@ == self.spec_label(),
    {
        match self {
            SeqMode::Step => "Step",
            SeqMode::Auto => "Auto",
        }
    }
}

/// Where the reading of a sequence file failed.
#[derive(Debug, Clone, Copy, PartialEq, Eq, Structural)]
pub enum FileReadStage {
    /// The header could not be read.
    ReadHeader,
    /// The file is shorter than a header.
    ReadHeaderSize,
    /// The size in the header could not be taken apart.
    DeserSize,
    /// The number of records in the header could not be taken apart.
    DeserNumRecords,
    /// The time base in the header is not a time base.
    DeserTimeBase,
    /// The time context in the header could not be taken apart.
    DeserTimeContext,
    /// The file has no room for its checksum.
    ReadSeqCrc,
    /// The records could not be read.
    ReadSeqData,
    /// The file is shorter than its header says.
    ReadSeqDataSize,
}

impl FileReadStage {
    /// The number that stands for the stage on the wire.
    pub open spec fn code(self) -> u8 {
        match self {
            FileReadStage::ReadHeader => 0,
            FileReadStage::ReadHeaderSize => 1,
            FileReadStage::DeserSize => 2,
            FileReadStage::DeserNumRecords => 3,
            FileReadStage::DeserTimeBase => 4,
            FileReadStage::DeserTimeContext => 5,
            FileReadStage::ReadSeqCrc => 6,
            FileReadStage::ReadSeqData => 7,
            FileReadStage::ReadSeqDataSize => 8,
        }
    }

    /// The number that stands for the stage on the wire.
    pub fn as_repr(self) -> (r: u8)
        ensures
            r == self.code(),
    {
        match self {
            FileReadStage::ReadHeader => 0,
            FileReadStage::ReadHeaderSize => 1,
            FileReadStage::DeserSize => 2,
            FileReadStage::DeserNumRecords => 3,
            FileReadStage::DeserTimeBase => 4,
            FileReadStage::DeserTimeContext => 5,
            FileReadStage::ReadSeqCrc => 6,
            FileReadStage::ReadSeqData => 7,
            FileReadStage::ReadSeqDataSize => 8,
        }
    }
}

impl FileReadStage {
    /// What a text calls the stage.
    pub open spec fn spec_label(self) -> Seq<char> {
        match self {
            FileReadStage::ReadHeader => "ReadHeader"@,
            FileReadStage::ReadHeaderSize => "ReadHeaderSize"@,
            FileReadStage::DeserSize => "DeserSize"@,
            FileReadStage::DeserNumRecords => "DeserNumRecords"@,
            FileReadStage::DeserTimeBase => "DeserTimeBase"@,
            FileReadStage::DeserTimeContext => "DeserTimeContext"@,
            FileReadStage::ReadSeqCrc => "ReadSeqCrc"@,
            FileReadStage::ReadSeqData => "ReadSeqData"@,
            FileReadStage::ReadSeqDataSize => "ReadSeqDataSize"@,
        }
    }

    /// What a text calls the stage.
    pub fn label(&self) -> (r: &'static str)
        ensures
            r@ == self.spec_label(),
    {
        match self {
            FileReadStage::ReadHeader => "ReadHeader",
            FileReadStage::ReadHeaderSize => "ReadHeaderSize",
            FileReadStage::DeserSize => "DeserSize",
            FileReadStage::DeserNumRecords => "DeserNumRecords",
            FileReadStage::DeserTimeBase => "DeserTimeBase",
            FileReadStage::DeserTimeContext => "DeserTimeContext",
            FileReadStage::ReadSeqCrc => "ReadSeqCrc",
            FileReadStage::ReadSeqData => "ReadSeqData",
            FileReadStage::ReadSeqDataSize => "ReadSeqDataSize",
        }
    }
}

/// Whether a sequence is executing.
#[derive(Debug, Clone, Copy, PartialEq, Eq, Structural, Default)]
pub enum RunMode {
    /// No sequence is executing.
    #[default]
    Stopped,
    /// A sequence is executing.
    Running,
}

/// How the next record advances.
#[derive(Debug, Clone, Copy, PartialEq, Eq, Structural, Default)]
pub enum StepMode {
    /// On its own, with each command response.
    #[default]
    Auto,
    /// On command only.
    Manual,
}

/// The kind of a record.
#[derive(Debug, Clone, Copy, PartialEq, Eq, Structural, Default)]
pub enum RecordDescriptor {
    /// A command due at the tagged time.
    Absolute,
    /// A command due the tagged time after the record is reached.
    Relative,
    /// The end of the sequence.
    #[default]
    EndOfSequence,
}

/// The header of a sequence file.
#[derive(Debug, Clone, Copy, PartialEq, Eq, Structural)]
pub struct SequenceHeader {
    /// How many bytes follow the header, the trailing checksum among them.
    pub file_size: u32,
    /// How many records there are.
    pub num_records: u32,
    /// What the time tags are counted from.
    pub time_base: TimeBase,
    /// Which of the clocks of that base they are counted on.
    pub time_context: u8,
}

impl SequenceHeader {
    /// The header before any sequence has been loaded.
    pub open spec fn initial() -> SequenceHeader {
        SequenceHeader {
            file_size: 0,
            num_records: 0,
            time_base: TimeBase::TbDontCare,
            time_context: FW_CONTEXT_DONT_CARE,
        }
    }
}

impl Default for SequenceHeader {
    fn default() -> (r: Self)
        ensures
            r == SequenceHeader::initial(),
    {
        SequenceHeader {
            file_size: 0,
            num_records: 0,
            time_base: TimeBase::TbDontCare,
            time_context: FW_CONTEXT_DONT_CARE,
        }
    }
}

/// A record in execution. `B` holds bytes: a `Vec<u8>` in memory, a `Seq<u8>` in
/// contracts.
#[derive(Debug)]
pub struct SequenceRecord<B = Vec<u8>> {
    /// The kind of the record.
    pub descriptor: RecordDescriptor,
    /// When the command is due.
    pub time_tag: Time,
    /// The complete command packet.
    pub command: B,
}

impl View for SequenceRecord<Vec<u8>> {
    type V = SequenceRecord<Seq<u8>>;

    open spec fn view(&self) -> SequenceRecord<Seq<u8>> {
        SequenceRecord {
            descriptor: self.descriptor,
            time_tag: self.time_tag,
            command: self.command@,
        }
    }
}

impl SequenceRecord<Seq<u8>> {
    /// The record before any has been read.
    pub open spec fn initial() -> SequenceRecord<Seq<u8>> {
        SequenceRecord {
            descriptor: RecordDescriptor::EndOfSequence,
            time_tag: Time::zero(),
            command: Seq::empty(),
        }
    }
}

impl Default for SequenceRecord<Vec<u8>> {
    fn default() -> (r: Self)
        ensures
            r@ == SequenceRecord::<Seq<u8>>::initial(),
    {
        SequenceRecord {
            descriptor: RecordDescriptor::EndOfSequence,
            time_tag: Time::default(),
            command: Vec::new(),
        }
    }
}

/// Why a sequence could not be loaded.
#[allow(inconsistent_fields)]
#[derive(Debug, Clone, Copy, PartialEq, Eq, Structural)]
pub enum SequenceLoadEvent {
    /// There is no such file.
    FileNotFound,
    /// The file could not be opened.
    FileReadError,
    /// The file could not be read or taken apart.
    FileInvalid {
        /// Where that happened.
        stage: FileReadStage,
        /// What went wrong there.
        error: i32,
    },
    /// The file is larger than the sequence buffer.
    FileSizeError {
        /// The size that the header gives.
        size: u32,
    },
    /// The checksum does not match.
    FileCrcFailure {
        /// The checksum in the file.
        stored: u32,
        /// The checksum of the header and the records.
        computed: u32,
    },
    /// A record is malformed.
    RecordInvalid {
        /// Which record, counted from zero.
        record_number: u32,
        /// What is wrong with it.
        error: i32,
    },
    /// Bytes are left over after the last record.
    RecordMismatch {
        /// How many records the header gives.
        header_records: u32,
        /// How many bytes are left over.
        extra_bytes: u32,
    },
    /// The sequence counts time from something else than the clock.
    TimeBaseMismatch {
        /// The base of the clock.
        current: TimeBase,
        /// The base of the sequence.
        seq: TimeBase,
    },
    /// The sequence counts time on another clock.
    TimeContextMismatch {
        /// The context of the clock.
        current: u8,
        /// The context of the sequence.
        seq: u8,
    },
    /// The header says that there are no records.
    NoRecords,
}

/// Each stage has a number of its own.
pub proof fn law_stage_numbers(s: FileReadStage)
    ensures
        s is ReadHeader <==> s.code() == 0,
        s is ReadHeaderSize <==> s.code() == 1,
        s is DeserSize <==> s.code() == 2,
        s is DeserNumRecords <==> s.code() == 3,
        s is DeserTimeBase <==> s.code() == 4,
        s is DeserTimeContext <==> s.code() == 5,
        s is ReadSeqCrc <==> s.code() == 6,
        s is ReadSeqData <==> s.code() == 7,
        s is ReadSeqDataSize <==> s.code() == 8,
{
}

/// A sequence that is stepped is 0 and one that advances on its own is 1. A command that waits
/// for the end of a sequence is 0 and one that does not is 1, and no other number says either.
pub proof fn law_mode_numbers(m: SeqMode, b: BlockState, v: u8)
    ensures
        m is Step <==> m.code() == 0,
        m is Auto <==> m.code() == 1,
        b is Block <==> b.code() == 0,
        b is NoBlock <==> b.code() == 1,
        BlockState::of_code(b.code()) == Some(b),
        BlockState::of_code(v) is Some <==> v <= 1,
{
}

/// The arguments of a sequence on the wire: their size in eight bytes, then all the raw bytes.
pub proof fn law_arguments_layout(a: SeqArgs)
    ensures
        ({
            let w = a.wire();
            &&& w.len() == 263
            &&& bytes::sum_of_four(w, 0) * 0x1_0000_0000 + bytes::sum_of_four(w, 4) == a.size
            &&& w.subrange(8, 263) == a.buffer.0@
        }),
{
    bytes::law_most_significant_of_eight_first(a.size);
    let w = a.wire();
    let size = bytes::be64(a.size);
    assert(w[0] == size[0] && w[1] == size[1] && w[2] == size[2] && w[3] == size[3]);
    assert(w[4] == size[4] && w[5] == size[5] && w[6] == size[6] && w[7] == size[7]);
    assert(w.subrange(8, 263) =~= a.buffer.0@);
}

} // verus!
