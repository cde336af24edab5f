//! The binary sequence format: an 11-byte header, the records, and a CRC-32 of
//! both. All numbers are big-endian.
//!
//! A command record is a descriptor byte, seconds, microseconds and command size
//! (four bytes each), then the command packet. The end of a sequence is a single
//! byte.
use vstd::prelude::*;

use super::format::{FileImage, LoadOutcome, Sequence, SequenceState, WireRecord};
use super::types::{
    FileReadStage, RecordDescriptor, SequenceHeader, SequenceLoadEvent, SequenceRecord,
    SEQUENCE_CRC_SIZE, SEQUENCE_HEADER_SIZE,
};
use crate::fw::bytes;
use crate::fw::bytes::SerializeStatus;
use crate::fw::crc32;
use crate::fw::crc32::Crc32;
use crate::fw::time::{Time, TimeBase, FW_CONTEXT_DONT_CARE, USECS_PER_SEC};
use crate::fw::types::FileStatus;

verus! {

broadcast use crate::fw::bytes::lemma_be32_len;

/// The largest packet that a command buffer takes.
pub const COM_BUFFER_MAX_SIZE: usize = 512;

/// The bytes of a command record in front of the command.
pub const RECORD_OVERHEAD: usize = 13;

/// The largest command that a record may hold. The size of a packet descriptor is
/// kept free.
pub const RECORD_COMMAND_MAX_SIZE: usize = 510;

/// What stands at `pos` in the records: a record and where the next one starts, or
/// why there is none.
pub open spec fn record_at(data: Seq<u8>, pos: int) -> Result<(WireRecord, int), SerializeStatus> {
    match bytes::u8_read(data, pos) {
        Err(e) => Err(e),
        Ok(d) => if d > 2 {
            Err(SerializeStatus::DeserFormatError)
        } else if d == 2 {
            Ok((WireRecord::end(), pos + 1))
        } else {
            match (bytes::u32_read(data, pos + 1), bytes::u32_read(data, pos + 5), bytes::u32_read(data, pos + 9)) {
                (Err(e), _, _) => Err(e),
                (_, Err(e), _) => Err(e),
                (_, _, Err(e)) => Err(e),
                (Ok(seconds), Ok(useconds), Ok(size)) => if size > data.len() - (pos + 13) || size
                    > RECORD_COMMAND_MAX_SIZE {
                    Err(SerializeStatus::DeserSizeMismatch)
                } else {
                    Ok(
                        (
                            WireRecord {
                                descriptor: if d == 0 {
                                    RecordDescriptor::Absolute
                                } else {
                                    RecordDescriptor::Relative
                                },
                                seconds,
                                useconds,
                                command: data.subrange(pos + 13, pos + 13 + size),
                            },
                            pos + 13 + size,
                        ),
                    )
                },
            }
        },
    }
}

/// Whether a command record with a full second or more of microseconds in its tag
/// stands at `pos`.
pub open spec fn tag_out_of_range(data: Seq<u8>, pos: int) -> bool {
    &&& bytes::u8_read(data, pos) is Ok
    &&& bytes::u8_read(data, pos)->Ok_0 < 2
    &&& bytes::u32_read(data, pos + 1) is Ok
    &&& bytes::u32_read(data, pos + 5) is Ok
    &&& bytes::u32_read(data, pos + 5)->Ok_0 >= USECS_PER_SEC
}

/// Where reading stops at a record that cannot be read: behind the last field that could.
pub open spec fn fault_position(data: Seq<u8>, pos: int) -> int {
    if bytes::u8_read(data, pos) is Err {
        pos
    } else if bytes::u8_read(data, pos)->Ok_0 > 2 || bytes::u32_read(data, pos + 1) is Err {
        pos + 1
    } else if bytes::u32_read(data, pos + 5) is Err {
        pos + 5
    } else if bytes::u32_read(data, pos + 9) is Err {
        pos + 9
    } else {
        pos + RECORD_OVERHEAD
    }
}

/// The first `n` records and where they end, or the number of the first record that
/// cannot be read and what is wrong with it.
pub open spec fn first_records(data: Seq<u8>, n: nat) -> Result<
    (Seq<WireRecord>, int),
    (nat, SerializeStatus),
>
    decreases n,
{
    if n == 0 {
        Ok((Seq::empty(), 0))
    } else {
        match first_records(data, (n - 1) as nat) {
            Err(e) => Err(e),
            Ok((records, pos)) => match record_at(data, pos) {
                Err(e) => Err(((n - 1) as nat, e)),
                Ok((record, next)) => Ok((records.push(record), next)),
            },
        }
    }
}

/// Whether reading the first `n` records meets no tag out of range.
pub open spec fn first_tags_in_range(data: Seq<u8>, n: nat) -> bool {
    forall|i: nat|
        i < n && (#[trigger] first_records(data, i)) is Ok ==> !tag_out_of_range(
            data,
            first_records(data, i)->Ok_0.1,
        )
}

/// The header in the first bytes of a file, if its time base is one.
pub open spec fn header_of(c: Seq<u8>) -> Option<SequenceHeader> {
    match TimeBase::of_code(bytes::u16_at(c, 8)) {
        None => None,
        Some(time_base) => Some(
            SequenceHeader {
                file_size: bytes::u32_at(c, 0),
                num_records: bytes::u32_at(c, 4),
                time_base,
                time_context: c[10],
            },
        ),
    }
}

/// Why the bytes of a file are not a header and as many bytes as the header says, if
/// they are not.
pub open spec fn layout_fault(capacity: nat, file: FileImage<Seq<u8>>) -> Option<
    SequenceLoadEvent,
> {
    let c = file.contents;
    if file.open == FileStatus::DoesntExist {
        Some(SequenceLoadEvent::FileNotFound)
    } else if file.open != FileStatus::OpOk {
        Some(SequenceLoadEvent::FileReadError)
    } else if file.header != FileStatus::OpOk {
        Some(
            SequenceLoadEvent::FileInvalid {
                stage: FileReadStage::ReadHeader,
                error: file.header.code() as i32,
            },
        )
    } else if c.len() < SEQUENCE_HEADER_SIZE {
        Some(
            SequenceLoadEvent::FileInvalid {
                stage: FileReadStage::ReadHeaderSize,
                error: c.len() as i32,
            },
        )
    } else if bytes::u32_at(c, 0) > capacity {
        Some(SequenceLoadEvent::FileSizeError { size: bytes::u32_at(c, 0) })
    } else if header_of(c) is None {
        Some(
            SequenceLoadEvent::FileInvalid {
                stage: FileReadStage::DeserTimeBase,
                error: SerializeStatus::DeserFormatError.code() as i32,
            },
        )
    } else if file.records != FileStatus::OpOk {
        Some(
            SequenceLoadEvent::FileInvalid {
                stage: FileReadStage::ReadSeqData,
                error: file.records.code() as i32,
            },
        )
    } else if c.len() - SEQUENCE_HEADER_SIZE < bytes::u32_at(c, 0) {
        Some(
            SequenceLoadEvent::FileInvalid {
                stage: FileReadStage::ReadSeqDataSize,
                error: bytes::signed32((c.len() - SEQUENCE_HEADER_SIZE) as u32),
            },
        )
    } else if bytes::u32_at(c, 0) < SEQUENCE_CRC_SIZE {
        Some(
            SequenceLoadEvent::FileInvalid {
                stage: FileReadStage::ReadSeqCrc,
                error: bytes::u32_at(c, 0) as i32,
            },
        )
    } else {
        None
    }
}

/// Where the checksum starts in a file without layout fault.
pub open spec fn crc_offset(c: Seq<u8>) -> int {
    SEQUENCE_HEADER_SIZE + bytes::u32_at(c, 0) - SEQUENCE_CRC_SIZE
}

/// The record bytes of a file without layout fault.
pub open spec fn record_data(c: Seq<u8>) -> Seq<u8> {
    c.subrange(SEQUENCE_HEADER_SIZE as int, crc_offset(c))
}

/// Why the checksum or the clock of a file without layout fault does not fit, if so.
pub open spec fn content_fault(c: Seq<u8>, now: Time) -> Option<SequenceLoadEvent> {
    let header = header_of(c)->0;
    let stored = bytes::u32_at(c, crc_offset(c));
    let computed = crc32::crc32(c.take(crc_offset(c)));
    if stored != computed {
        Some(SequenceLoadEvent::FileCrcFailure { stored, computed })
    } else if header.time_base != now.base && header.time_base != TimeBase::TbDontCare {
        Some(SequenceLoadEvent::TimeBaseMismatch { current: now.base, seq: header.time_base })
    } else if header.time_context != now.context && header.time_context != FW_CONTEXT_DONT_CARE {
        Some(
            SequenceLoadEvent::TimeContextMismatch {
                current: now.context,
                seq: header.time_context,
            },
        )
    } else {
        None
    }
}

/// The `num` records that make up `data`, or why they do not.
pub open spec fn records_of(data: Seq<u8>, num: u32) -> Result<Seq<WireRecord>, SequenceLoadEvent> {
    if num == 0 {
        Err(SequenceLoadEvent::NoRecords)
    } else {
        match first_records(data, num as nat) {
            Err((i, e)) => Err(
                SequenceLoadEvent::RecordInvalid { record_number: i as u32, error: e.code() as i32 },
            ),
            Ok((records, end)) => if end < data.len() {
                Err(
                    SequenceLoadEvent::RecordMismatch {
                        header_records: num,
                        extra_bytes: (data.len() - end) as u32,
                    },
                )
            } else {
                Ok(records)
            },
        }
    }
}

/// Where reading `num` records in a row stops.
pub open spec fn walk_stops(data: Seq<u8>, num: u32) -> int {
    match first_records(data, num as nat) {
        Ok((_, end)) => end,
        Err((i, _)) => fault_position(data, first_records(data, i)->Ok_0.1),
    }
}

/// The sequence buffer: what has been read into it, and how far that has been taken apart.
#[verifier::ext_equal]
pub struct Loaded {
    /// The bytes.
    pub bytes: Seq<u8>,
    /// Where the next record starts.
    pub cursor: int,
}

/// Bytes, with others laid over their beginning as far as they reach.
pub open spec fn overlaid(under: Seq<u8>, over: Seq<u8>) -> Seq<u8> {
    Seq::new(
        under.len(),
        |i: int|
            if i < over.len() {
                over[i]
            } else {
                under[i]
            },
    )
}

/// As much of a file as a read of the header takes in.
pub open spec fn header_bytes(c: Seq<u8>) -> Seq<u8> {
    if c.len() < SEQUENCE_HEADER_SIZE {
        c
    } else {
        c.take(SEQUENCE_HEADER_SIZE as int)
    }
}

/// Whether a whole header was read.
pub open spec fn has_header(file: FileImage<Seq<u8>>) -> bool {
    file.open == FileStatus::OpOk && file.header == FileStatus::OpOk && file.contents.len()
        >= SEQUENCE_HEADER_SIZE
}

/// What a load leaves in a buffer that held `before`. The header and the rest of the file
/// are read to the same place, one after the other; a load that fails leaves the buffer as
/// it is then.
pub open spec fn binary_leaves(
    before: Loaded,
    capacity: nat,
    file: FileImage<Seq<u8>>,
    now: Time,
) -> Loaded {
    let c = file.contents;
    let size = bytes::u32_at(c, 0);
    if file.open != FileStatus::OpOk {
        before
    } else if !has_header(file) {
        Loaded { bytes: overlaid(before.bytes, header_bytes(c)), ..before }
    } else if size > capacity {
        Loaded { bytes: header_bytes(c), cursor: 4 }
    } else if header_of(c) is None {
        Loaded { bytes: header_bytes(c), cursor: 10 }
    } else if file.records != FileStatus::OpOk || c.len() - SEQUENCE_HEADER_SIZE < size {
        Loaded {
            bytes: overlaid(
                header_bytes(c),
                c.subrange(
                    SEQUENCE_HEADER_SIZE as int,
                    if c.len() < SEQUENCE_HEADER_SIZE + size {
                        c.len() as int
                    } else {
                        SEQUENCE_HEADER_SIZE + size
                    },
                ),
            ),
            cursor: SEQUENCE_HEADER_SIZE as int,
        }
    } else if size < SEQUENCE_CRC_SIZE {
        Loaded {
            bytes: c.subrange(SEQUENCE_HEADER_SIZE as int, SEQUENCE_HEADER_SIZE + size),
            cursor: 0,
        }
    } else {
        let num = header_of(c)->0.num_records;
        Loaded {
            bytes: record_data(c),
            cursor: if content_fault(c, now) is Some || records_of(record_data(c), num) is Ok {
                0
            } else {
                walk_stops(record_data(c), num)
            },
        }
    }
}

/// The binary format's load rule. The checksum covers the header and the records; a
/// successful load leaves the header with the base and context of the clock.
pub open spec fn binary_load(capacity: nat, file: FileImage<Seq<u8>>, now: Time) -> LoadOutcome {
    let c = file.contents;
    match layout_fault(capacity, file) {
        Some(e) => LoadOutcome {
            header: if file.open == FileStatus::OpOk && file.header == FileStatus::OpOk && c.len()
                >= SEQUENCE_HEADER_SIZE && bytes::u32_at(c, 0) <= capacity {
                header_of(c)
            } else {
                None
            },
            result: Err(e),
        },
        None => match content_fault(c, now) {
            Some(e) => LoadOutcome { header: header_of(c), result: Err(e) },
            None => LoadOutcome {
                header: Some(
                    SequenceHeader {
                        time_base: now.base,
                        time_context: now.context,
                        ..header_of(c)->0
                    },
                ),
                result: records_of(record_data(c), header_of(c)->0.num_records),
            },
        },
    }
}

/// Whether a load of the binary format meets no tag out of range.
pub open spec fn binary_tags_in_range(capacity: nat, file: FileImage<Seq<u8>>, now: Time) -> bool {
    layout_fault(capacity, file) is None && content_fault(file.contents, now) is None
        ==> first_tags_in_range(
        record_data(file.contents),
        header_of(file.contents)->0.num_records as nat,
    )
}

proof fn lemma_record_advances(data: Seq<u8>, pos: int)
    requires
        0 <= pos,
        record_at(data, pos) is Ok,
    ensures
        pos < record_at(data, pos)->Ok_0.1 <= data.len(),
{
}

proof fn lemma_first_records_bounds(data: Seq<u8>, n: nat)
    requires
        first_records(data, n) is Ok,
    ensures
        first_records(data, n)->Ok_0.0.len() == n,
        n <= first_records(data, n)->Ok_0.1 <= data.len(),
    decreases n,
{
    if n > 0 {
        lemma_first_records_bounds(data, (n - 1) as nat);
        lemma_record_advances(data, first_records(data, (n - 1) as nat)->Ok_0.1);
    }
}

/// Reading fewer records gives a prefix, and ends earlier.
proof fn lemma_first_records_prefix(data: Seq<u8>, n: nat, m: nat)
    requires
        n <= m,
        first_records(data, m) is Ok,
    ensures
        first_records(data, n) is Ok,
        first_records(data, n)->Ok_0.0 == first_records(data, m)->Ok_0.0.take(n as int),
        n < m ==> first_records(data, n)->Ok_0.1 < first_records(data, m)->Ok_0.1,
        n < m ==> record_at(data, first_records(data, n)->Ok_0.1) == Ok::<
            (WireRecord, int),
            SerializeStatus,
        >(
            (
                first_records(data, m)->Ok_0.0[n as int],
                first_records(data, n + 1)->Ok_0.1,
            ),
        ),
        n < m ==> first_records(data, n + 1) is Ok,
    decreases m - n,
{
    lemma_first_records_bounds(data, m);
    if n < m {
        lemma_first_records_prefix(data, n + 1, m);
        let rs = first_records(data, m)->Ok_0.0;
        assert(first_records(data, n) is Ok);
        lemma_first_records_bounds(data, n);
        let (rs1, pos1) = first_records(data, n + 1)->Ok_0;
        let (rs0, pos0) = first_records(data, n)->Ok_0;
        lemma_record_advances(data, pos0);
        assert(rs1 =~= rs.take((n + 1) as int));
        assert(rs0 =~= rs1.take(n as int));
        assert(rs0 =~= rs.take(n as int));
        assert(rs1[n as int] == rs[n as int]);
    } else {
        assert(first_records(data, m)->Ok_0.0.take(n as int) =~= first_records(data, m)->Ok_0.0);
    }
}

/// A record that cannot be read stays unreadable however many are asked for.
proof fn lemma_first_fault_stays(data: Seq<u8>, n: nat, m: nat)
    requires
        n <= m,
        first_records(data, n) is Err,
    ensures
        first_records(data, m) == first_records(data, n),
    decreases m,
{
    if n < m {
        lemma_first_fault_stays(data, n, (m - 1) as nat);
    }
}

/// The record that stands next in a buffer, if one can be read.
pub open spec fn next_in(b: Loaded) -> Option<WireRecord> {
    match record_at(b.bytes, b.cursor) {
        Ok((record, _)) if !tag_out_of_range(b.bytes, b.cursor) => Some(record),
        _ => None,
    }
}

/// The binary sequence format, with the sequence that is loaded.
pub struct FPrimeSequence {
    capacity: usize,
    data: Vec<u8>,
    position: usize,
    allocator_id: i32,
    header: SequenceHeader,
    crc_stored: u32,
    file_name: Vec<u8>,
    total: Ghost<nat>,
    read: Ghost<nat>,
}

impl FPrimeSequence {
    /// A sequence without a buffer.
    pub fn new() -> (r: Self)
        ensures
            r.ready(),
            r.state() == (SequenceState {
                capacity: 0,
                name: Seq::empty(),
                header: SequenceHeader::initial(),
                records: Seq::empty(),
                position: 0,
            }),
            r.spec_allocator_id() == 0,
            r.spec_stored_crc() == 0,
            r.loaded() == (Loaded { bytes: Seq::empty(), cursor: 0 }),
    {
        let r = FPrimeSequence {
            capacity: 0,
            data: Vec::new(),
            position: 0,
            allocator_id: 0,
            header: SequenceHeader::default(),
            crc_stored: 0,
            file_name: Vec::new(),
            total: Ghost(0),
            read: Ghost(0),
        };
        assert(r.state().name =~= Seq::empty());
        assert(r.loaded().bytes =~= Seq::empty());
        r
    }

    /// The identifier that the buffer was allocated under.
    pub closed spec fn spec_allocator_id(&self) -> i32 {
        self.allocator_id
    }

    /// The sequence buffer.
    pub closed spec fn loaded(&self) -> Loaded {
        Loaded { bytes: self.data@, cursor: self.position as int }
    }

    /// The checksum that the last load found in the file.
    pub closed spec fn spec_stored_crc(&self) -> u32 {
        self.crc_stored
    }

    /// The identifier that the buffer was allocated under.
    pub fn allocator_id(&self) -> (r: i32)
        ensures
            r == self.spec_allocator_id(),
    {
        self.allocator_id
    }

    /// The checksum that the last load found in the file.
    pub fn stored_crc(&self) -> (r: u32)
        ensures
            r == self.spec_stored_crc(),
    {
        self.crc_stored
    }
}

impl FPrimeSequence {
    /// Reads the record at the current position and moves on to the next.
    fn deserialize_record(&mut self, record: &mut SequenceRecord<Vec<u8>>) -> (r: SerializeStatus)
        requires
            old(self).position <= old(self).data@.len(),
            !tag_out_of_range(old(self).data@, old(self).position as int),
        ensures
            match record_at(old(self).data@, old(self).position as int) {
                Ok((wire, next)) => {
                    &&& r == SerializeStatus::OK
                    &&& final(record)@ == wire.read_into(old(record)@)
                    &&& *final(self) == (FPrimeSequence { position: next as usize, ..*old(self) })
                    &&& old(self).position < next <= old(self).data@.len()
                    &&& old(record)@.time_tag.wf() ==> final(record)@.time_tag.wf()
                },
                Err(e) => {
                    let stop = fault_position(old(self).data@, old(self).position as int);
                    &&& r == e
                    &&& r != SerializeStatus::OK
                    &&& *final(self) == (FPrimeSequence { position: stop as usize, ..*old(self) })
                    &&& old(self).position <= stop <= old(self).data@.len()
                },
            },
            old(self).data@.len() <= usize::MAX,
    {
        let pos: usize = self.position;
        let buf = self.data.as_slice();
        assert(buf@.len() == buf.len());
        let descriptor: u8 = match bytes::read_u8(buf, pos) {
            Err(e) => {
                return e;
            },
            Ok(v) => v,
        };
        self.position = pos + 1;
        if descriptor > 2 {
            return SerializeStatus::DeserFormatError;
        }
        if descriptor == 2 {
            record.descriptor = RecordDescriptor::EndOfSequence;
            return SerializeStatus::OK;
        }
        let seconds: u32 = match bytes::read_u32(buf, pos + 1) {
            Err(e) => {
                return e;
            },
            Ok(v) => v,
        };
        self.position = pos + 5;
        let useconds: u32 = match bytes::read_u32(buf, pos + 5) {
            Err(e) => {
                return e;
            },
            Ok(v) => v,
        };
        self.position = pos + 9;
        let size: u32 = match bytes::read_u32(buf, pos + 9) {
            Err(e) => {
                return e;
            },
            Ok(v) => v,
        };
        self.position = pos + RECORD_OVERHEAD;
        let size: usize = size as usize;
        if size > buf.len() - (pos + RECORD_OVERHEAD) || size > RECORD_COMMAND_MAX_SIZE {
            return SerializeStatus::DeserSizeMismatch;
        }
        let start: usize = pos + RECORD_OVERHEAD;
        let command: Vec<u8> = bytes::copy_range(buf, start, start + size);
        record.descriptor = if descriptor == 0 {
            RecordDescriptor::Absolute
        } else {
            RecordDescriptor::Relative
        };
        record.time_tag.set(seconds, useconds);
        record.command = command;
        self.position = start + size;
        SerializeStatus::OK
    }

    /// Why the bytes of the file are not a header and as many bytes as the header
    /// says, if they are not.
    fn check_layout(capacity: usize, file: &FileImage<Vec<u8>>) -> (r: Option<SequenceLoadEvent>)
        ensures
            r == layout_fault(capacity as nat, file@),
    {
        let c = file.contents.as_slice();
        match file.open {
            FileStatus::OpOk => {},
            FileStatus::DoesntExist => {
                return Some(SequenceLoadEvent::FileNotFound);
            },
            _ => {
                return Some(SequenceLoadEvent::FileReadError);
            },
        }
        if file.header != FileStatus::OpOk {
            return Some(
                SequenceLoadEvent::FileInvalid {
                    stage: FileReadStage::ReadHeader,
                    error: file.header.as_repr() as i32,
                },
            );
        }
        if c.len() < SEQUENCE_HEADER_SIZE {
            return Some(
                SequenceLoadEvent::FileInvalid {
                    stage: FileReadStage::ReadHeaderSize,
                    error: c.len() as i32,
                },
            );
        }
        let file_size: u32 = Self::field_u32(c, 0);
        if file_size as u64 > capacity as u64 {
            return Some(SequenceLoadEvent::FileSizeError { size: file_size });
        }
        if Self::parse_header(c).is_none() {
            return Some(
                SequenceLoadEvent::FileInvalid {
                    stage: FileReadStage::DeserTimeBase,
                    error: SerializeStatus::DeserFormatError.as_repr() as i32,
                },
            );
        }
        if file.records != FileStatus::OpOk {
            return Some(
                SequenceLoadEvent::FileInvalid {
                    stage: FileReadStage::ReadSeqData,
                    error: file.records.as_repr() as i32,
                },
            );
        }
        let available: usize = c.len() - SEQUENCE_HEADER_SIZE;
        if (available as u64) < file_size as u64 {
            return Some(
                SequenceLoadEvent::FileInvalid {
                    stage: FileReadStage::ReadSeqDataSize,
                    error: bytes::to_signed32(available as u32),
                },
            );
        }
        if file_size < SEQUENCE_CRC_SIZE as u32 {
            return Some(
                SequenceLoadEvent::FileInvalid {
                    stage: FileReadStage::ReadSeqCrc,
                    error: file_size as i32,
                },
            );
        }
        None
    }

    /// The four-byte number at `pos`.
    fn field_u32(c: &[u8], pos: usize) -> (r: u32)
        requires
            pos + 4 <= c@.len(),
        ensures
            r == bytes::u32_at(c@, pos as int),
    {
        reveal(bytes::u32_at);
        c[pos] as u32 * 0x100_0000 + c[pos + 1] as u32 * 0x1_0000 + c[pos + 2] as u32 * 0x100 + c[pos
            + 3] as u32
    }

    /// How many bytes are to be read behind the header of a file, if there is one.
    pub fn data_size(header: &[u8]) -> (r: Option<u32>)
        ensures
            r == (if header@.len() < SEQUENCE_HEADER_SIZE {
                None
            } else {
                Some(bytes::u32_at(header@, 0))
            }),
    {
        if header.len() < SEQUENCE_HEADER_SIZE {
            None
        } else {
            Some(Self::field_u32(header, 0))
        }
    }

    /// The header in the first bytes of a file, if its time base is one.
    fn parse_header(c: &[u8]) -> (r: Option<SequenceHeader>)
        requires
            c@.len() >= SEQUENCE_HEADER_SIZE,
        ensures
            r == header_of(c@),
    {
        match TimeBase::from_repr(c[8] as u16 * 0x100 + c[9] as u16) {
            None => None,
            Some(time_base) => Some(
                SequenceHeader {
                    file_size: Self::field_u32(c, 0),
                    num_records: Self::field_u32(c, 4),
                    time_base,
                    time_context: c[10],
                },
            ),
        }
    }

    /// Where the checksum starts.
    fn data_end(c: &[u8]) -> (r: usize)
        requires
            c@.len() >= SEQUENCE_HEADER_SIZE + bytes::u32_at(c@, 0),
            bytes::u32_at(c@, 0) >= SEQUENCE_CRC_SIZE,
        ensures
            r == crc_offset(c@),
            r + SEQUENCE_CRC_SIZE <= c@.len() <= usize::MAX,
    {
        assert(c@.len() == c.len());
        SEQUENCE_HEADER_SIZE + (Self::field_u32(c, 0) as usize - SEQUENCE_CRC_SIZE)
    }

    /// Why the checksum or the clock does not fit, if so.
    fn check_content(c: &[u8], header: &SequenceHeader, now: &Time) -> (r: Option<SequenceLoadEvent>)
        requires
            c@.len() >= SEQUENCE_HEADER_SIZE + bytes::u32_at(c@, 0),
            bytes::u32_at(c@, 0) >= SEQUENCE_CRC_SIZE,
            header_of(c@) == Some(*header),
        ensures
            r == content_fault(c@, *now),
    {
        let data_end: usize = Self::data_end(c);
        let stored: u32 = Self::field_u32(c, data_end);
        let covered: Vec<u8> = bytes::copy_range(c, 0, data_end);
        assert(covered@ =~= c@.take(crc_offset(c@)));
        let computed: u32 = Crc32::hash_u32(covered.as_slice());
        if stored != computed {
            return Some(SequenceLoadEvent::FileCrcFailure { stored, computed });
        }
        if header.time_base != now.base && header.time_base != TimeBase::TbDontCare {
            return Some(
                SequenceLoadEvent::TimeBaseMismatch { current: now.base, seq: header.time_base },
            );
        }
        if header.time_context != now.context && header.time_context != FW_CONTEXT_DONT_CARE {
            return Some(
                SequenceLoadEvent::TimeContextMismatch {
                    current: now.context,
                    seq: header.time_context,
                },
            );
        }
        None
    }

    /// Reads all the records once, and goes back to the first where they are what the
    /// header says.
    fn validate_records(&mut self) -> (r: Option<SequenceLoadEvent>)
        requires
            old(self).position == 0,
            old(self).data@.len() <= u32::MAX,
            first_tags_in_range(old(self).data@, old(self).header.num_records as nat),
        ensures
            match records_of(old(self).data@, old(self).header.num_records) {
                Ok(records) => {
                    &&& records.len() > 0
                    &&& r is None
                    &&& final(self).ready()
                    &&& final(self).state() == (SequenceState {
                        records,
                        position: 0,
                        ..old(self).state()
                    })
                },
                Err(e) => r == Some(e) && final(self).state().name == old(self).state().name
                    && final(self).state().header == old(self).state().header
                    && final(self).state().capacity == old(self).state().capacity
                    && final(self).position == walk_stops(
                    old(self).data@,
                    old(self).header.num_records,
                ),
            },
            final(self).data@ == old(self).data@,
            records_of(old(self).data@, old(self).header.num_records) is Ok ==>
                final(self).position == 0,
            final(self).allocator_id == old(self).allocator_id,
            final(self).crc_stored == old(self).crc_stored,
    {
        let num: u32 = self.header.num_records;
        if num == 0 {
            return Some(SequenceLoadEvent::NoRecords);
        }
        let ghost data = self.data@;
        let mut record: SequenceRecord<Vec<u8>> = SequenceRecord::default();
        let mut i: u32 = 0;
        while i < num
            invariant
                i <= num,
                num == old(self).header.num_records,
                data == old(self).data@,
                first_tags_in_range(data, num as nat),
                *self == (FPrimeSequence { position: self.position, ..*old(self) }),
                self.position <= data.len(),
                first_records(data, i as nat) is Ok,
                first_records(data, i as nat)->Ok_0.1 == self.position,
                num > 0,
            decreases num - i,
        {
            let status: SerializeStatus = self.deserialize_record(&mut record);
            if status != SerializeStatus::OK {
                proof {
                    lemma_first_fault_stays(data, (i + 1) as nat, num as nat);
                }
                return Some(
                    SequenceLoadEvent::RecordInvalid {
                        record_number: i,
                        error: status.as_repr() as i32,
                    },
                );
            }
            i += 1;
        }
        let left: usize = self.data.len() - self.position;
        if left > 0 {
            return Some(
                SequenceLoadEvent::RecordMismatch {
                    header_records: num,
                    extra_bytes: left as u32,
                },
            );
        }
        proof {
            lemma_first_records_bounds(data, num as nat);
        }
        self.position = 0;
        self.total = Ghost(num as nat);
        self.read = Ghost(0);
        None
    }

    /// Keeps what was read of a file whose layout is at fault.
    fn keep_partial(&mut self, file: &FileImage<Vec<u8>>)
        requires
            layout_fault(old(self).capacity as nat, file@) is Some,
        ensures
            forall|now: Time|
                final(self).loaded() == #[trigger] binary_leaves(
                    old(self).loaded(),
                    old(self).capacity as nat,
                    file@,
                    now,
                ),
            final(self).header == (if has_header(file@) && bytes::u32_at(file@.contents, 0)
                <= old(self).capacity && header_of(file@.contents) is Some {
                header_of(file@.contents)->0
            } else {
                old(self).header
            }),
            *final(self) == (FPrimeSequence {
                data: final(self).data,
                position: final(self).position,
                header: final(self).header,
                ..*old(self)
            }),
    {
        let c = file.contents.as_slice();
        if file.open != FileStatus::OpOk {
            return;
        }
        if file.header != FileStatus::OpOk || c.len() < SEQUENCE_HEADER_SIZE {
            let read: usize = if c.len() < SEQUENCE_HEADER_SIZE {
                c.len()
            } else {
                SEQUENCE_HEADER_SIZE
            };
            Self::lay_over(&mut self.data, c, 0, read);
            assert(c@.subrange(0, read as int) =~= header_bytes(c@));
            return;
        }
        self.data = bytes::copy_range(c, 0, SEQUENCE_HEADER_SIZE);
        assert(self.data@ =~= header_bytes(c@));
        let size: u32 = Self::field_u32(c, 0);
        if size as u64 > self.capacity as u64 {
            self.position = 4;
            return;
        }
        match Self::parse_header(c) {
            None => {
                self.position = 10;
                return;
            },
            Some(header) => {
                self.header = header;
            },
        }
        let available: usize = c.len() - SEQUENCE_HEADER_SIZE;
        if file.records != FileStatus::OpOk || (available as u64) < size as u64 {
            let end: usize = if (available as u64) < size as u64 {
                c.len()
            } else {
                SEQUENCE_HEADER_SIZE + size as usize
            };
            Self::lay_over(&mut self.data, c, SEQUENCE_HEADER_SIZE, end);
            self.position = SEQUENCE_HEADER_SIZE;
            return;
        }
        self.data = bytes::copy_range(c, SEQUENCE_HEADER_SIZE, SEQUENCE_HEADER_SIZE + size as usize);
        self.position = 0;
    }

    /// Lays a part of `c` over the beginning of `data`.
    fn lay_over(data: &mut Vec<u8>, c: &[u8], start: usize, end: usize)
        requires
            start <= end <= c@.len(),
        ensures
            final(data)@ == overlaid(old(data)@, c@.subrange(start as int, end as int)),
    {
        let ghost under = data@;
        let ghost over = c@.subrange(start as int, end as int);
        let mut i: usize = 0;
        while i < data.len() && i < end - start
            invariant
                start <= end <= c@.len(),
                over == c@.subrange(start as int, end as int),
                i <= end - start,
                i <= under.len(),
                data@ == overlaid(under, over.take(i as int)),
            decreases end - start - i,
        {
            data.set(i, c[start + i]);
            i += 1;
            assert(data@ =~= overlaid(under, over.take(i as int)));
        }
        assert(data@ =~= overlaid(under, over));
    }

    /// The records that are loaded.
    closed spec fn records(&self) -> Seq<WireRecord> {
        match first_records(self.data@, self.total@) {
            Ok((records, _)) => records,
            Err(_) => Seq::empty(),
        }
    }
}

impl Sequence for FPrimeSequence {
    closed spec fn state(&self) -> SequenceState {
        SequenceState {
            capacity: self.capacity as nat,
            name: self.file_name@,
            header: self.header,
            records: self.records(),
            position: self.read@,
        }
    }

    closed spec fn ready(&self) -> bool {
        &&& first_records(self.data@, self.total@) is Ok
        &&& first_records(self.data@, self.total@)->Ok_0.1 == self.data@.len()
        &&& self.read@ <= self.total@
        &&& first_records(self.data@, self.read@)->Ok_0.1 == self.position
        &&& first_tags_in_range(self.data@, self.total@)
    }

    closed spec fn pending(&self) -> bool {
        self.position < self.data@.len()
    }

    closed spec fn upcoming(&self) -> Option<WireRecord> {
        next_in(self.loaded())
    }

    open spec fn failure_leaves(
        pending: bool,
        capacity: nat,
        file: FileImage<Seq<u8>>,
        now: Time,
    ) -> bool {
        if has_header(file) {
            let left = binary_leaves(
                Loaded { bytes: Seq::empty(), cursor: 0 },
                capacity,
                file,
                now,
            );
            left.cursor < left.bytes.len()
        } else {
            pending
        }
    }

    open spec fn load_rule(capacity: nat, file: FileImage<Seq<u8>>, now: Time) -> LoadOutcome {
        binary_load(capacity, file, now)
    }

    open spec fn tags_in_range(capacity: nat, file: FileImage<Seq<u8>>, now: Time) -> bool {
        binary_tags_in_range(capacity, file, now)
    }

    fn allocate_buffer(&mut self, identifier: i32, bytes: usize)
        ensures
            final(self).spec_allocator_id() == identifier,
            final(self).spec_stored_crc() == old(self).spec_stored_crc(),
            final(self).loaded() == (Loaded { bytes: Seq::empty(), cursor: 0 }),
    {
        self.allocator_id = identifier;
        self.capacity = bytes;
        self.clear();
    }

    fn deallocate_buffer(&mut self)
        ensures
            final(self).spec_allocator_id() == old(self).spec_allocator_id(),
            final(self).spec_stored_crc() == old(self).spec_stored_crc(),
            final(self).loaded() == (Loaded { bytes: Seq::empty(), cursor: 0 }),
    {
        self.capacity = 0;
        self.clear();
    }

    fn capacity(&self) -> (r: usize) {
        self.capacity
    }

    fn set_file_name(&mut self, file_name: &[u8])
        ensures
            final(self).spec_allocator_id() == old(self).spec_allocator_id(),
            final(self).spec_stored_crc() == old(self).spec_stored_crc(),
            final(self).loaded() == old(self).loaded(),
            final(self).upcoming() == old(self).upcoming(),
    {
        self.file_name = bytes::copy_bytes(file_name);
    }

    fn file_name(&self) -> (r: &Vec<u8>) {
        &self.file_name
    }

    fn log_file_name(&self) -> (r: &Vec<u8>) {
        &self.file_name
    }

    fn string_file_name(&self) -> (r: &Vec<u8>) {
        &self.file_name
    }

    fn header(&self) -> (r: SequenceHeader) {
        self.header
    }

    fn load_file(
        &mut self,
        file_name: &[u8],
        file: &FileImage<Vec<u8>>,
        current_time: &Time,
        event: &mut Option<SequenceLoadEvent>,
    ) -> (r: bool)
        ensures
            final(self).spec_allocator_id() == old(self).spec_allocator_id(),
            final(self).spec_stored_crc() == (if layout_fault(
                old(self).state().capacity,
                file@,
            ) is None {
                bytes::u32_at(file@.contents, crc_offset(file@.contents))
            } else {
                old(self).spec_stored_crc()
            }),
            final(self).loaded() == binary_leaves(
                old(self).loaded(),
                old(self).state().capacity,
                file@,
                *current_time,
            ),
            final(self).upcoming() == next_in(final(self).loaded()),
    {
        self.file_name = bytes::copy_bytes(file_name);
        let c = file.contents.as_slice();
        let fault = Self::check_layout(self.capacity, file);
        match fault {
            Some(e) => {
                assert(self.loaded() == old(self).loaded());
                self.keep_partial(file);
                assert(self.loaded() == binary_leaves(
                    old(self).loaded(),
                    old(self).state().capacity,
                    file@,
                    *current_time,
                ));
                *event = Some(e);
                return false;
            },
            None => {},
        }
        let header: SequenceHeader = match Self::parse_header(c) {
            Some(header) => header,
            None => {
                return false;
            },
        };
        self.header = header;
        let data_end: usize = Self::data_end(c);
        self.crc_stored = Self::field_u32(c, data_end);
        self.data = bytes::copy_range(c, SEQUENCE_HEADER_SIZE, data_end);
        self.position = 0;
        let fault = Self::check_content(c, &header, current_time);
        match fault {
            Some(e) => {
                *event = Some(e);
                return false;
            },
            None => {},
        }
        self.header.time_base = current_time.base;
        self.header.time_context = current_time.context;
        let fault = self.validate_records();
        match fault {
            Some(e) => {
                *event = Some(e);
                false
            },
            None => true,
        }
    }

    fn accepts_tags(&self, file: &FileImage<Vec<u8>>, current_time: &Time) -> (r: bool) {
        let c = file.contents.as_slice();
        if Self::check_layout(self.capacity, file).is_some() {
            return true;
        }
        let header: SequenceHeader = match Self::parse_header(c) {
            Some(header) => header,
            None => {
                return true;
            },
        };
        if Self::check_content(c, &header, current_time).is_some() {
            return true;
        }
        let data_end: usize = Self::data_end(c);
        let mut probe = FPrimeSequence::new();
        probe.data = bytes::copy_range(c, SEQUENCE_HEADER_SIZE, data_end);
        probe.position = 0;
        let ghost data = probe.data@;
        let mut record: SequenceRecord<Vec<u8>> = SequenceRecord::default();
        let mut i: u32 = 0;
        while i < header.num_records
            invariant
                i <= header.num_records,
                data == probe.data@,
                probe.position <= data.len(),
                first_records(data, i as nat) is Ok,
                first_records(data, i as nat)->Ok_0.1 == probe.position,
                first_tags_in_range(data, i as nat),
                data == record_data(file@.contents),
                header_of(file@.contents) == Some(header),
                layout_fault(self.capacity as nat, file@) is None,
                content_fault(file@.contents, *current_time) is None,
            decreases header.num_records - i,
        {
            if probe.tag_at_position_out_of_range() {
                return false;
            }
            assert(first_tags_in_range(data, (i + 1) as nat));
            let status: SerializeStatus = probe.deserialize_record(&mut record);
            if status != SerializeStatus::OK {
                proof {
                    assert forall|k: nat|
                        k < header.num_records && (#[trigger] first_records(
                            data,
                            k,
                        )) is Ok implies !tag_out_of_range(data, first_records(data, k)->Ok_0.1) by {
                        if k > i {
                            lemma_first_fault_stays(data, (i + 1) as nat, k);
                        }
                    }
                }
                return true;
            }
            i += 1;
        }
        true
    }

    fn has_more_records(&self) -> (r: bool)
        ensures
            r == (self.loaded().cursor < self.loaded().bytes.len()),
    {
        proof {
            if self.ready() {
                lemma_first_records_prefix(self.data@, self.read@, self.total@);
                lemma_first_records_bounds(self.data@, self.total@);
            }
        }
        self.position < self.data.len()
    }

    fn next_record(&mut self, record: &mut SequenceRecord<Vec<u8>>)
        ensures
            final(self).spec_allocator_id() == old(self).spec_allocator_id(),
            final(self).spec_stored_crc() == old(self).spec_stored_crc(),
            final(self).state().name == old(self).state().name,
            final(self).state().header == old(self).state().header,
            final(self).state().capacity == old(self).state().capacity,
            final(self).loaded() == (Loaded {
                cursor: record_at(old(self).loaded().bytes, old(self).loaded().cursor)->Ok_0.1,
                ..old(self).loaded()
            }),
            final(self).upcoming() == next_in(final(self).loaded()),
    {
        proof {
            if self.ready() && self.state().more() {
                lemma_first_records_prefix(self.data@, self.read@, self.total@);
                lemma_first_records_bounds(self.data@, self.total@);
                lemma_first_records_bounds(self.data@, self.read@);
                assert(first_records(self.data@, self.read@) is Ok);
            }
        }
        let _ = self.deserialize_record(record);
        let ghost next = (self.read@ + 1) as nat;
        self.read = Ghost(next);
    }

    fn reset(&mut self)
        ensures
            final(self).spec_allocator_id() == old(self).spec_allocator_id(),
            final(self).spec_stored_crc() == old(self).spec_stored_crc(),
            final(self).state().name == old(self).state().name,
            final(self).state().header == old(self).state().header,
            final(self).state().capacity == old(self).state().capacity,
            final(self).loaded() == (Loaded { cursor: 0, ..old(self).loaded() }),
            final(self).upcoming() == next_in(final(self).loaded()),
    {
        self.position = 0;
        self.read = Ghost(0);
    }

    fn clear(&mut self)
        ensures
            final(self).spec_allocator_id() == old(self).spec_allocator_id(),
            final(self).spec_stored_crc() == old(self).spec_stored_crc(),
            final(self).loaded() == (Loaded { bytes: Seq::empty(), cursor: 0 }),
    {
        self.data = Vec::new();
        self.position = 0;
        self.total = Ghost(0);
        self.read = Ghost(0);
        assert(self.records() =~= Seq::empty());
    }
}

impl FPrimeSequence {
    /// Whether a command record with a tag out of range stands at the position.
    fn tag_at_position_out_of_range(&self) -> (r: bool)
        requires
            self.position <= self.data@.len(),
        ensures
            r == tag_out_of_range(self.data@, self.position as int),
    {
        let buf = self.data.as_slice();
        assert(buf@.len() == buf.len());
        let pos: usize = self.position;
        match bytes::read_u8(buf, pos) {
            Err(_) => false,
            Ok(d) => if d >= 2 {
                false
            } else {
                match bytes::read_u32(buf, pos + 1) {
                    Err(_) => false,
                    Ok(_) => match bytes::read_u32(buf, pos + 5) {
                        Err(_) => false,
                        Ok(us) => us >= USECS_PER_SEC,
                    },
                }
            },
        }
    }
}

/// A record that the format can hold.
pub open spec fn storable(r: WireRecord) -> bool {
    if r.descriptor == RecordDescriptor::EndOfSequence {
        r == WireRecord::end()
    } else {
        r.command.len() <= RECORD_COMMAND_MAX_SIZE && r.useconds < USECS_PER_SEC
    }
}

/// The bytes of a record.
pub open spec fn record_bytes(r: WireRecord) -> Seq<u8> {
    match r.descriptor {
        RecordDescriptor::EndOfSequence => seq![2u8],
        RecordDescriptor::Absolute => seq![0u8] + bytes::be32(r.seconds) + bytes::be32(r.useconds)
            + bytes::be32(r.command.len() as u32) + r.command,
        RecordDescriptor::Relative => seq![1u8] + bytes::be32(r.seconds) + bytes::be32(r.useconds)
            + bytes::be32(r.command.len() as u32) + r.command,
    }
}

/// The bytes of records, one after the other.
pub open spec fn records_bytes(records: Seq<WireRecord>) -> Seq<u8>
    decreases records.len(),
{
    if records.len() == 0 {
        Seq::empty()
    } else {
        records_bytes(records.drop_last()) + record_bytes(records.last())
    }
}

/// The bytes of a sequence file in front of its checksum.
pub open spec fn covered_bytes(base: TimeBase, context: u8, records: Seq<WireRecord>) -> Seq<u8> {
    bytes::be32((records_bytes(records).len() + SEQUENCE_CRC_SIZE) as u32) + bytes::be32(
        records.len() as u32,
    ) + bytes::be16(base.code()) + seq![context] + records_bytes(records)
}

/// The bytes of a sequence file.
pub open spec fn file_bytes(base: TimeBase, context: u8, records: Seq<WireRecord>) -> Seq<u8> {
    covered_bytes(base, context, records) + bytes::be32(
        crc32::crc32(covered_bytes(base, context, records)),
    )
}

proof fn lemma_record_reads_back(before: Seq<u8>, r: WireRecord, after: Seq<u8>)
    requires
        storable(r),
    ensures
        record_at(before + record_bytes(r) + after, before.len() as int) == Ok::<
            (WireRecord, int),
            SerializeStatus,
        >((r, (before.len() + record_bytes(r).len()) as int)),
        !tag_out_of_range(before + record_bytes(r) + after, before.len() as int),
        record_bytes(r).len() > 0,
{
    let data = before + record_bytes(r) + after;
    let pos = before.len() as int;
    assert(data[pos] == record_bytes(r)[0]);
    if r.descriptor != RecordDescriptor::EndOfSequence {
        let d = if r.descriptor == RecordDescriptor::Absolute {
            0u8
        } else {
            1u8
        };
        let size = r.command.len() as u32;
        let b1 = before + seq![d];
        let b2 = b1 + bytes::be32(r.seconds);
        let b3 = b2 + bytes::be32(r.useconds);
        assert(data =~= b1 + bytes::be32(r.seconds) + (bytes::be32(r.useconds) + bytes::be32(size)
            + r.command + after));
        bytes::law_u32_round_trip(
            b1,
            r.seconds,
            bytes::be32(r.useconds) + bytes::be32(size) + r.command + after,
        );
        assert(data =~= b2 + bytes::be32(r.useconds) + (bytes::be32(size) + r.command + after));
        bytes::law_u32_round_trip(b2, r.useconds, bytes::be32(size) + r.command + after);
        assert(data =~= b3 + bytes::be32(size) + (r.command + after));
        bytes::law_u32_round_trip(b3, size, r.command + after);
        assert(data.subrange(pos + 13, pos + 13 + size) =~= r.command);
    }
}

proof fn lemma_records_bytes_split(records: Seq<WireRecord>, n: nat)
    requires
        n <= records.len(),
    ensures
        records_bytes(records) == records_bytes(records.take(n as int)) + records_bytes(
            records.skip(n as int),
        ),
    decreases records.len(),
{
    if n == records.len() {
        assert(records.take(n as int) =~= records);
        assert(records_bytes(records) + Seq::<u8>::empty() =~= records_bytes(records));
    } else {
        let front = records.drop_last();
        lemma_records_bytes_split(front, n);
        assert(front.take(n as int) =~= records.take(n as int));
        assert(records.skip(n as int).drop_last() =~= front.skip(n as int));
        assert(records.skip(n as int).last() == records.last());
        assert(records_bytes(records) =~= records_bytes(records.take(n as int)) + records_bytes(
            records.skip(n as int),
        ));
    }
}

proof fn lemma_records_read_back(records: Seq<WireRecord>, n: nat)
    requires
        forall|i: int| 0 <= i < records.len() ==> storable(#[trigger] records[i]),
        n <= records.len(),
    ensures
        first_records(records_bytes(records), n) == Ok::<
            (Seq<WireRecord>, int),
            (nat, SerializeStatus),
        >((records.take(n as int), records_bytes(records.take(n as int)).len() as int)),
        n < records.len() ==> !tag_out_of_range(
            records_bytes(records),
            records_bytes(records.take(n as int)).len() as int,
        ),
    decreases n,
{
    if n < records.len() {
        let before = records_bytes(records.take(n as int));
        lemma_records_bytes_split(records, n + 1);
        assert(records.take(n as int + 1).drop_last() =~= records.take(n as int));
        lemma_record_reads_back(before, records[n as int], records_bytes(records.skip(n as int + 1)));
    }
    if n > 0 {
        let k = (n - 1) as nat;
        lemma_records_read_back(records, k);
        let before = records_bytes(records.take(k as int));
        lemma_records_bytes_split(records, n);
        assert(records.take(n as int).drop_last() =~= records.take(k as int));
        lemma_record_reads_back(before, records[k as int], records_bytes(records.skip(n as int)));
        assert(records.take(k as int).push(records[k as int]) =~= records.take(n as int));
    } else {
        assert(records.take(0) =~= Seq::empty());
    }
}

proof fn lemma_header_reads_back(
    size: u32,
    num: u32,
    base: TimeBase,
    context: u8,
    rest: Seq<u8>,
    c: Seq<u8>,
)
    requires
        c == bytes::be32(size) + bytes::be32(num) + bytes::be16(base.code()) + seq![context] + rest,
    ensures
        c.len() == SEQUENCE_HEADER_SIZE + rest.len(),
        bytes::u32_at(c, 0) == size,
        header_of(c) == Some(
            SequenceHeader {
                file_size: size,
                num_records: num,
                time_base: base,
                time_context: context,
            },
        ),
{
    let e = Seq::<u8>::empty();
    let f1 = bytes::be32(size);
    let f2 = bytes::be32(num);
    let f3 = bytes::be16(base.code());
    let f4 = seq![context];
    assert(c =~= e + f1 + (f2 + f3 + f4 + rest));
    bytes::law_u32_round_trip(e, size, f2 + f3 + f4 + rest);
    assert(c =~= f1 + f2 + (f3 + f4 + rest));
    bytes::law_u32_round_trip(f1, num, f3 + f4 + rest);
    assert(c =~= (f1 + f2) + f3 + (f4 + rest));
    bytes::law_u16_round_trip(f1 + f2, base.code(), f4 + rest);
    crate::fw::time::law_time_base_round_trip(base, 0);
    assert(c[10] == context);
}

proof fn lemma_file_parts(
    base: TimeBase,
    context: u8,
    records: Seq<WireRecord>,
    trailing: Seq<u8>,
    c: Seq<u8>,
)
    requires
        c == file_bytes(base, context, records) + trailing,
        records.len() <= u32::MAX,
        records_bytes(records).len() + SEQUENCE_CRC_SIZE <= u32::MAX,
    ensures
        c.len() >= SEQUENCE_HEADER_SIZE + bytes::u32_at(c, 0),
        bytes::u32_at(c, 0) == records_bytes(records).len() + SEQUENCE_CRC_SIZE,
        header_of(c) == Some(
            SequenceHeader {
                file_size: (records_bytes(records).len() + SEQUENCE_CRC_SIZE) as u32,
                num_records: records.len() as u32,
                time_base: base,
                time_context: context,
            },
        ),
        record_data(c) == records_bytes(records),
        bytes::u32_at(c, crc_offset(c)) == crc32::crc32(c.take(crc_offset(c))),
{
    let data = records_bytes(records);
    let size = (data.len() + SEQUENCE_CRC_SIZE) as u32;
    let num = records.len() as u32;
    let covered = covered_bytes(base, context, records);
    let crc = crc32::crc32(covered);
    let rest = data + bytes::be32(crc) + trailing;
    assert(c =~= bytes::be32(size) + bytes::be32(num) + bytes::be16(base.code()) + seq![context]
        + rest);
    lemma_header_reads_back(size, num, base, context, rest, c);
    assert(crc_offset(c) == covered.len());
    assert(c =~= covered + bytes::be32(crc) + trailing);
    bytes::law_u32_round_trip(covered, crc, trailing);
    assert(c.take(crc_offset(c)) =~= covered);
    assert(record_data(c) =~= data);
}

/// A file laid out as the format says loads, and gives back the records that it was
/// made of, whatever stands after its checksum. The header comes out with the base and
/// context of the clock, which those of the file must match unless they are the ones
/// that match any clock.
pub proof fn law_well_formed_file_loads(
    capacity: nat,
    base: TimeBase,
    context: u8,
    records: Seq<WireRecord>,
    trailing: Seq<u8>,
    now: Time,
)
    requires
        0 < records.len() <= u32::MAX,
        forall|i: int| 0 <= i < records.len() ==> storable(#[trigger] records[i]),
        records_bytes(records).len() + SEQUENCE_CRC_SIZE <= capacity,
        records_bytes(records).len() + SEQUENCE_CRC_SIZE <= u32::MAX,
        base == now.base || base == TimeBase::TbDontCare,
        context == now.context || context == FW_CONTEXT_DONT_CARE,
    ensures
        ({
            let file = FileImage {
                open: FileStatus::OpOk,
                header: FileStatus::OpOk,
                records: FileStatus::OpOk,
                contents: file_bytes(base, context, records) + trailing,
            };
            &&& binary_tags_in_range(capacity, file, now)
            &&& binary_load(capacity, file, now) == LoadOutcome {
                header: Some(
                    SequenceHeader {
                        file_size: (records_bytes(records).len() + SEQUENCE_CRC_SIZE) as u32,
                        num_records: records.len() as u32,
                        time_base: now.base,
                        time_context: now.context,
                    },
                ),
                result: Ok(records),
            }
        }),
{
    let data = records_bytes(records);
    let num = records.len() as u32;
    lemma_file_parts(
        base,
        context,
        records,
        trailing,
        file_bytes(base, context, records) + trailing,
    );
    lemma_records_read_back(records, records.len());
    assert(records.take(records.len() as int) =~= records);
    assert forall|i: nat|
        i < num && (#[trigger] first_records(data, i)) is Ok implies !tag_out_of_range(
        data,
        first_records(data, i)->Ok_0.1,
    ) by {
        lemma_records_read_back(records, i);
    }
}

} // verus!
