//! What holds of sequence files and what is made of them, in terms of their bytes.
use vstd::prelude::*;

use super::format::{FileImage, WireRecord};
use super::fprime_sequence;
use super::fprime_sequence::Loaded;
use super::types::{FileReadStage, RecordDescriptor, SequenceHeader, SequenceLoadEvent};
use crate::fw::bytes;
use crate::fw::bytes::SerializeStatus;
use crate::fw::crc32;
use crate::fw::time::Time;
use crate::fw::types::FileStatus;

verus! {

/// Whether the two bytes of a time base are those of one.
pub open spec fn is_time_base(code: int) -> bool {
    0 <= code < 4 || code == 0xFFFF
}

/// A file that cannot be read as a header and as many bytes as the header says is refused for
/// the first thing that is wrong with it: it is not there or cannot be opened, its header
/// cannot be read or is cut off, the size in the header is larger than the buffer, there is no
/// such time base, the records cannot be read or are cut off, or there is no room for the
/// checksum.
pub proof fn law_layout_is_checked(capacity: nat, file: FileImage<Seq<u8>>, now: Time)
    ensures
        ({
            let c = file.contents;
            let result = fprime_sequence::binary_load(capacity, file, now).result;
            let size = bytes::sum_of_four(c, 0);
            let opened = file.open == FileStatus::OpOk;
            let begun = opened && file.header == FileStatus::OpOk;
            let headed = begun && c.len() >= 11;
            let sized = headed && size <= capacity;
            let based = sized && is_time_base(c[8] * 256 + c[9]);
            let read = based && file.records == FileStatus::OpOk;
            let whole = read && c.len() >= 11 + size;
            &&& file.open == FileStatus::DoesntExist ==> result == Err::<Seq<WireRecord>, _>(
                SequenceLoadEvent::FileNotFound,
            )
            &&& !opened && file.open != FileStatus::DoesntExist ==> result == Err::<
                Seq<WireRecord>,
                _,
            >(SequenceLoadEvent::FileReadError)
            &&& opened && !begun ==> result == Err::<Seq<WireRecord>, _>(
                SequenceLoadEvent::FileInvalid {
                    stage: FileReadStage::ReadHeader,
                    error: file.header.code() as i32,
                },
            )
            &&& begun && !headed ==> result == Err::<Seq<WireRecord>, _>(
                SequenceLoadEvent::FileInvalid {
                    stage: FileReadStage::ReadHeaderSize,
                    error: c.len() as i32,
                },
            )
            &&& headed && !sized ==> result == Err::<Seq<WireRecord>, _>(
                SequenceLoadEvent::FileSizeError { size: size as u32 },
            )
            &&& sized && !based ==> result == Err::<Seq<WireRecord>, _>(
                SequenceLoadEvent::FileInvalid { stage: FileReadStage::DeserTimeBase, error: 4 },
            )
            &&& based && !read ==> result == Err::<Seq<WireRecord>, _>(
                SequenceLoadEvent::FileInvalid {
                    stage: FileReadStage::ReadSeqData,
                    error: file.records.code() as i32,
                },
            )
            &&& read && !whole ==> {
                &&& result matches Err(SequenceLoadEvent::FileInvalid { stage, error })
                &&& stage == FileReadStage::ReadSeqDataSize
                &&& error as int % 0x1_0000_0000 == c.len() - 11
            }
            &&& whole && size < 4 ==> result == Err::<Seq<WireRecord>, _>(
                SequenceLoadEvent::FileInvalid {
                    stage: FileReadStage::ReadSeqCrc,
                    error: size as i32,
                },
            )
            &&& fprime_sequence::layout_fault(capacity, file) is None <==> whole && size >= 4
        }),
{
    let c = file.contents;
    bytes::law_numbers_at(c, 0);
    bytes::law_numbers_at(c, 8);
    if c.len() >= 11 {
        bytes::law_signed_numbers(0, 0, 0, (c.len() - 11) as u32);
    }
}

/// A file that can be read is refused where the four bytes at its end are not the checksum of
/// all bytes before them, and then where it counts time from something else than the clock or
/// on another clock, unless it says that any will do.
pub proof fn law_checksum_and_clock_are_checked(
    capacity: nat,
    file: FileImage<Seq<u8>>,
    now: Time,
)
    requires
        fprime_sequence::layout_fault(capacity, file) is None,
    ensures
        ({
            let c = file.contents;
            let result = fprime_sequence::binary_load(capacity, file, now).result;
            let size = bytes::sum_of_four(c, 0);
            let stored = bytes::sum_of_four(c, 11 + size - 4);
            let computed = crc32::crc32(c.subrange(0, 11 + size - 4));
            let base = c[8] * 256 + c[9];
            let intact = stored == computed;
            let same_base = base == now.base.code() || base == 0xFFFF;
            let same_context = c[10] == now.context || c[10] == 0xFF;
            &&& !intact ==> result == Err::<Seq<WireRecord>, _>(
                SequenceLoadEvent::FileCrcFailure { stored: stored as u32, computed },
            )
            &&& intact && !same_base ==> {
                &&& result matches Err(SequenceLoadEvent::TimeBaseMismatch { current, seq })
                &&& current == now.base
                &&& seq.code() == base
            }
            &&& intact && same_base && !same_context ==> result == Err::<Seq<WireRecord>, _>(
                SequenceLoadEvent::TimeContextMismatch { current: now.context, seq: c[10] },
            )
            &&& intact && same_base && same_context ==> {
                let outcome = fprime_sequence::binary_load(capacity, file, now);
                &&& outcome.header == Some(
                    SequenceHeader {
                        file_size: size as u32,
                        num_records: bytes::sum_of_four(c, 4) as u32,
                        time_base: now.base,
                        time_context: now.context,
                    },
                )
                &&& outcome.result == fprime_sequence::records_of(
                    c.subrange(11, 11 + size - 4),
                    bytes::sum_of_four(c, 4) as u32,
                )
            }
        }),
{
    let c = file.contents;
    let size = bytes::sum_of_four(c, 0);
    bytes::law_numbers_at(c, 0);
    bytes::law_numbers_at(c, 4);
    bytes::law_numbers_at(c, 8);
    bytes::law_numbers_at(c, 11 + size - 4);
    crate::fw::time::law_time_base_round_trip(now.base, bytes::u16_at(c, 8));
}

/// The records of a file are as many as its header says, one after the other, and leave
/// nothing over. Without any, with one that cannot be read, or with bytes left over, the file
/// is refused.
pub proof fn law_records_make_up_the_file(data: Seq<u8>, num: u32)
    ensures
        ({
            let result = fprime_sequence::records_of(data, num);
            let walk = fprime_sequence::first_records(data, num as nat);
            &&& num == 0 ==> result == Err::<Seq<WireRecord>, _>(SequenceLoadEvent::NoRecords)
            &&& num > 0 && walk is Ok && walk->Ok_0.1 >= data.len() ==> result == Ok::<
                Seq<WireRecord>,
                SequenceLoadEvent,
            >(walk->Ok_0.0)
            &&& num > 0 && walk is Ok && walk->Ok_0.1 < data.len() ==> result == Err::<
                Seq<WireRecord>,
                _,
            >(
                SequenceLoadEvent::RecordMismatch {
                    header_records: num,
                    extra_bytes: (data.len() - walk->Ok_0.1) as u32,
                },
            )
            &&& num > 0 && walk is Err ==> result == Err::<Seq<WireRecord>, _>(
                SequenceLoadEvent::RecordInvalid {
                    record_number: walk->Err_0.0 as u32,
                    error: walk->Err_0.1.code() as i32,
                },
            )
        }),
{
}

/// The first record starts at the first byte, and each of the others where the one before
/// ends.
pub proof fn law_records_follow_each_other(data: Seq<u8>, n: nat)
    ensures
        fprime_sequence::first_records(data, 0) == Ok::<_, (nat, SerializeStatus)>(
            (Seq::<WireRecord>::empty(), 0int),
        ),
        fprime_sequence::first_records(data, n) matches Ok((records, end)) ==> {
            &&& fprime_sequence::record_at(data, end) matches Ok((record, next))
                ==> fprime_sequence::first_records(data, n + 1) == Ok::<_, (nat, SerializeStatus)>(
                (records.push(record), next),
            )
            &&& fprime_sequence::record_at(data, end) matches Err(e)
                ==> fprime_sequence::first_records(data, n + 1) == Err::<(Seq<WireRecord>, int), _>(
                (n, e),
            )
        },
        fprime_sequence::first_records(data, n) matches Err(e) ==> fprime_sequence::first_records(
            data,
            n + 1,
        ) == Err::<(Seq<WireRecord>, int), _>(e),
{
}

/// A record starts with a byte that says what it is: 0 for a command at a time, 1 for one
/// after a time, and 2 for the end of the sequence, which is all there is to it. A command has
/// its seconds, its microseconds and its size in four bytes each, and is at most 510 bytes
/// long.
pub proof fn law_record_layout(data: Seq<u8>, pos: int)
    requires
        0 <= pos < data.len(),
    ensures
        ({
            let r = fprime_sequence::record_at(data, pos);
            let size = bytes::sum_of_four(data, pos + 9);
            let whole = pos + 13 <= data.len() && size <= data.len() - (pos + 13) && size <= 510;
            &&& data[pos] > 2 ==> r == Err::<(WireRecord, int), _>(
                SerializeStatus::DeserFormatError,
            )
            &&& data[pos] == 2 ==> {
                &&& r is Ok
                &&& r->Ok_0.0.descriptor == RecordDescriptor::EndOfSequence
                &&& r->Ok_0.1 == pos + 1
            }
            &&& data[pos] < 2 ==> (r is Ok <==> whole)
            &&& data[pos] < 2 && whole ==> {
                &&& r->Ok_0.0.descriptor == if data[pos] == 0 {
                    RecordDescriptor::Absolute
                } else {
                    RecordDescriptor::Relative
                }
                &&& r->Ok_0.0.seconds == bytes::sum_of_four(data, pos + 1)
                &&& r->Ok_0.0.useconds == bytes::sum_of_four(data, pos + 5)
                &&& r->Ok_0.0.command == data.subrange(pos + 13, pos + 13 + size)
                &&& r->Ok_0.1 == pos + 13 + size
            }
            &&& data[pos] < 2 && pos + 13 <= data.len() && !whole ==> r == Err::<
                (WireRecord, int),
                _,
            >(SerializeStatus::DeserSizeMismatch)
        }),
{
    bytes::law_numbers_read(data, pos);
    bytes::law_numbers_read(data, pos + 1);
    bytes::law_numbers_read(data, pos + 5);
    bytes::law_numbers_read(data, pos + 9);
}

/// What a load leaves in the buffer. A file that cannot be opened leaves what was there. The
/// header is read to the start of the buffer: over what was there while it is not whole, and
/// then in its place, taken apart as far as it is in order. The rest is read to the same place.
/// Of a file that is whole the records stay, without the checksum.
pub proof fn law_what_a_load_leaves(
    before: Loaded,
    capacity: nat,
    file: FileImage<Seq<u8>>,
    now: Time,
)
    ensures
        ({
            let c = file.contents;
            let left = fprime_sequence::binary_leaves(before, capacity, file, now);
            let size = bytes::sum_of_four(c, 0);
            let opened = file.open == FileStatus::OpOk;
            let headed = opened && file.header == FileStatus::OpOk && c.len() >= 11;
            let sized = headed && size <= capacity;
            let based = sized && is_time_base(bytes::sum_of_two(c, 8));
            let whole = based && file.records == FileStatus::OpOk && c.len() >= 11 + size;
            &&& !opened ==> left == before
            &&& opened && !headed ==> {
                &&& left.cursor == before.cursor
                &&& left.bytes.len() == before.bytes.len()
                &&& forall|i: int|
                    0 <= i < before.bytes.len() ==> #[trigger] left.bytes[i] == if i < c.len() && i
                        < 11 {
                        c[i]
                    } else {
                        before.bytes[i]
                    }
            }
            &&& headed && !based ==> left.bytes == c.subrange(0, 11)
            &&& headed && !sized ==> left.cursor == 4
            &&& sized && !based ==> left.cursor == 10
            &&& based && !whole ==> {
                &&& left.cursor == 11
                &&& left.bytes.len() == 11
                &&& forall|i: int|
                    0 <= i < 11 ==> #[trigger] left.bytes[i] == if i < size && 11 + i < c.len() {
                        c[11 + i]
                    } else {
                        c[i]
                    }
            }
            &&& whole && size < 4 ==> left.bytes == c.subrange(11, 11 + size) && left.cursor == 0
            &&& whole && size >= 4 ==> left.bytes == c.subrange(11, 11 + size - 4)
            &&& fprime_sequence::binary_load(capacity, file, now).result is Ok ==> left.cursor == 0
        }),
{
    let c = file.contents;
    bytes::law_numbers_at(c, 0);
    bytes::law_numbers_at(c, 8);
}

/// Where reading stops in the records of a whole file: where it began if the checksum or the
/// clock was at fault, behind the last record if bytes were left over, and otherwise within the
/// record that cannot be read, behind the last of its fields that could.
pub proof fn law_where_reading_stops(
    before: Loaded,
    capacity: nat,
    file: FileImage<Seq<u8>>,
    now: Time,
)
    requires
        fprime_sequence::layout_fault(capacity, file) is None,
        fprime_sequence::binary_load(capacity, file, now).result is Err,
    ensures
        ({
            let c = file.contents;
            let left = fprime_sequence::binary_leaves(before, capacity, file, now);
            let data = left.bytes;
            let reason = fprime_sequence::binary_load(capacity, file, now).result->Err_0;
            let num = bytes::sum_of_four(c, 4) as nat;
            let walk = fprime_sequence::first_records(data, num);
            &&& reason is FileCrcFailure || reason is TimeBaseMismatch
                || reason is TimeContextMismatch ==> left.cursor == 0
            &&& reason is NoRecords ==> left.cursor == 0
            &&& reason is RecordMismatch ==> walk is Ok && left.cursor == walk->Ok_0.1
            &&& reason is RecordInvalid ==> {
                let pos = fprime_sequence::first_records(data, walk->Err_0.0)->Ok_0.1;
                walk is Err && left.cursor == fprime_sequence::fault_position(data, pos)
            }
        }),
{
    bytes::law_numbers_at(file.contents, 4);
}

/// Reading stops in front of a record of which there is nothing, behind a first byte that says
/// nothing or that too little follows for the seconds, and so on behind each field that is
/// there, up to the size, behind which a command is cut off or too long.
pub proof fn law_where_a_record_is_at_fault(data: Seq<u8>, pos: int)
    requires
        0 <= pos,
        fprime_sequence::record_at(data, pos) is Err,
    ensures
        fprime_sequence::fault_position(data, pos) == if pos >= data.len() {
            pos
        } else if data[pos] > 2 || data.len() < pos + 5 {
            pos + 1
        } else if data.len() < pos + 9 {
            pos + 5
        } else if data.len() < pos + 13 {
            pos + 9
        } else {
            pos + 13
        },
{
    bytes::law_numbers_read(data, pos);
    bytes::law_numbers_read(data, pos + 1);
    bytes::law_numbers_read(data, pos + 5);
    bytes::law_numbers_read(data, pos + 9);
}

/// A tag is out of range where a command record has its microseconds and they make up a second
/// or more.
pub proof fn law_tags_out_of_range(data: Seq<u8>, pos: int)
    requires
        0 <= pos,
    ensures
        fprime_sequence::tag_out_of_range(data, pos) <==> pos + 9 <= data.len() && data[pos] < 2
            && bytes::sum_of_four(data, pos + 5) >= 1_000_000,
{
    bytes::law_numbers_read(data, pos);
    bytes::law_numbers_read(data, pos + 1);
    bytes::law_numbers_read(data, pos + 5);
}

/// A file in whose records one byte was changed does not load: its checksum does not match.
pub proof fn law_changed_file_is_refused(
    capacity: nat,
    file: FileImage<Seq<u8>>,
    now: Time,
    i: int,
    byte: u8,
)
    requires
        fprime_sequence::binary_load(capacity, file, now).result is Ok,
        11 <= i < 11 + bytes::sum_of_four(file.contents, 0) - 4,
        byte != file.contents[i],
    ensures
        ({
            let changed = FileImage { contents: file.contents.update(i, byte), ..file };
            let result = fprime_sequence::binary_load(capacity, changed, now).result;
            result is Err && result->Err_0 is FileCrcFailure
        }),
{
    let c = file.contents;
    let changed = FileImage { contents: c.update(i, byte), ..file };
    let end = 11 + bytes::sum_of_four(c, 0) - 4;
    law_layout_is_checked(capacity, file, now);
    law_layout_is_checked(capacity, changed, now);
    law_checksum_and_clock_are_checked(capacity, file, now);
    law_checksum_and_clock_are_checked(capacity, changed, now);
    let before = c.take(i);
    let after = c.subrange(i + 1, end);
    assert(c.subrange(0, end) =~= before.push(c[i]) + after);
    assert(changed.contents.subrange(0, end) =~= before.push(byte) + after);
    crc32::law_one_changed_byte_changes_the_checksum(before, c[i], byte, after);
}

} // verus!
