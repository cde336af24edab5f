//! What the events and the telemetry of the sequencer are on the wire.
use vstd::prelude::*;

use super::dictionary::{Action, SequencerEvent};
use crate::fw::bytes;
use crate::fw::types::LogSeverity;

verus! {

broadcast use crate::fw::bytes::lemma_be32_len;

/// Each kind of event has a number of its own.
pub proof fn law_event_numbers(e: SequencerEvent)
    ensures
        e is SequenceLoaded <==> e.spec_id() == 0,
        e is SequenceCanceled <==> e.spec_id() == 1,
        e is FileReadError <==> e.spec_id() == 2,
        e is FileInvalid <==> e.spec_id() == 3,
        e is RecordInvalid <==> e.spec_id() == 4,
        e is FileSizeError <==> e.spec_id() == 5,
        e is FileNotFound <==> e.spec_id() == 6,
        e is FileCrcFailure <==> e.spec_id() == 7,
        e is CommandComplete <==> e.spec_id() == 8,
        e is SequenceComplete <==> e.spec_id() == 9,
        e is CommandError <==> e.spec_id() == 10,
        e is InvalidMode <==> e.spec_id() == 11,
        e is RecordMismatch <==> e.spec_id() == 12,
        e is TimeBaseMismatch <==> e.spec_id() == 13,
        e is TimeContextMismatch <==> e.spec_id() == 14,
        e is PortSequenceStarted <==> e.spec_id() == 15,
        e is UnexpectedCompletion <==> e.spec_id() == 16,
        e is ModeSwitched <==> e.spec_id() == 17,
        e is NoSequenceActive <==> e.spec_id() == 18,
        e is SequenceValid <==> e.spec_id() == 19,
        e is SequenceTimeout <==> e.spec_id() == 20,
        e is CmdStepped <==> e.spec_id() == 21,
        e is CmdStarted <==> e.spec_id() == 22,
        e is JoinWaiting <==> e.spec_id() == 23,
        e is JoinWaitingNotComplete <==> e.spec_id() == 24,
        e is NoRecords <==> e.spec_id() == 25,
{
}

/// What a sequence and its commands do as they should is activity; that there was nothing to
/// do is a lesser warning, and everything else a serious one.
pub proof fn law_event_severities(e: SequencerEvent)
    ensures
        e.spec_severity() == LogSeverity::ActivityLo <==> e is SequenceLoaded || e is CommandComplete,
        e.spec_severity() == LogSeverity::ActivityHi <==> e is SequenceCanceled
            || e is SequenceComplete || e is PortSequenceStarted || e is ModeSwitched
            || e is SequenceValid || e is CmdStepped || e is CmdStarted || e is JoinWaiting,
        e.spec_severity() == LogSeverity::WarningLo <==> e is NoSequenceActive || e is NoRecords,
        e.spec_severity() == LogSeverity::WarningHi <==> e is FileReadError || e is FileInvalid
            || e is RecordInvalid || e is FileSizeError || e is FileNotFound || e is FileCrcFailure
            || e is CommandError || e is InvalidMode || e is RecordMismatch || e is TimeBaseMismatch
            || e is TimeContextMismatch || e is UnexpectedCompletion || e is SequenceTimeout
            || e is JoinWaitingNotComplete,
{
}

/// The name of the sequence file goes in front of what else an event says, behind its length
/// and up to 60 bytes of it, in all events but those that are about no file.
pub proof fn law_names_go_first(e: SequencerEvent, name: Seq<u8>)
    ensures
        ({
            let w = e.wire(name);
            let about_none = e is InvalidMode || e is UnexpectedCompletion || e is ModeSwitched
                || e is NoSequenceActive || e is JoinWaitingNotComplete;
            let length = if name.len() <= 60 {
                name.len() as int
            } else {
                60
            };
            &&& about_none ==> w == e.detail()
            &&& !about_none ==> {
                &&& w.len() == 2 + length + e.detail().len()
                &&& bytes::sum_of_two(w, 0) == length
                &&& w.subrange(2, 2 + length) == name.subrange(0, length)
                &&& w.subrange(2 + length, w.len() as int) == e.detail()
            }
        }),
{
    let w = e.wire(name);
    let length = if name.len() <= 60 {
        name.len() as int
    } else {
        60
    };
    if e.named() {
        let shown = name.subrange(0, length);
        assert(name.len() <= 60 ==> shown =~= name);
        let none = Seq::<u8>::empty();
        assert(w =~= none + bytes::be16(length as u16) + (shown + e.detail()));
        bytes::law_numbers_add_up(none, 0, length as u16, shown + e.detail());
        assert(w.subrange(2, 2 + length) =~= shown);
        assert(w.subrange(2 + length, w.len() as int) =~= e.detail());
    }
}

/// What an event says besides the name: its numbers in the order in which the event has them,
/// four bytes each but for the short ones.
pub proof fn law_event_details(e: SequencerEvent)
    ensures
        ({
            let d = e.detail();
            match e {
                SequencerEvent::FileInvalid { stage, error } => {
                    &&& d.len() == 5
                    &&& d[0] == stage.code()
                    &&& bytes::sum_of_four(d, 1) == error as int % 0x1_0000_0000
                },
                SequencerEvent::RecordInvalid { record_number, error } => {
                    &&& d.len() == 8
                    &&& bytes::sum_of_four(d, 0) == record_number
                    &&& bytes::sum_of_four(d, 4) == error as int % 0x1_0000_0000
                },
                SequencerEvent::FileSizeError { size } => d.len() == 4 && bytes::sum_of_four(d, 0)
                    == size,
                SequencerEvent::FileCrcFailure { stored, computed } => {
                    &&& d.len() == 8
                    &&& bytes::sum_of_four(d, 0) == stored
                    &&& bytes::sum_of_four(d, 4) == computed
                },
                SequencerEvent::CommandComplete { record_number, op_code } => {
                    &&& d.len() == 8
                    &&& bytes::sum_of_four(d, 0) == record_number
                    &&& bytes::sum_of_four(d, 4) == op_code
                },
                SequencerEvent::CommandError { record_number, op_code, error_status } => {
                    &&& d.len() == 12
                    &&& bytes::sum_of_four(d, 0) == record_number
                    &&& bytes::sum_of_four(d, 4) == op_code
                    &&& bytes::sum_of_four(d, 8) == error_status
                },
                SequencerEvent::RecordMismatch { header_records, extra_bytes } => {
                    &&& d.len() == 8
                    &&& bytes::sum_of_four(d, 0) == header_records
                    &&& bytes::sum_of_four(d, 4) == extra_bytes
                },
                SequencerEvent::TimeBaseMismatch { current, seq } => {
                    &&& d.len() == 4
                    &&& bytes::sum_of_two(d, 0) == current.code()
                    &&& bytes::sum_of_two(d, 2) == seq.code()
                },
                SequencerEvent::TimeContextMismatch { current, seq } => {
                    &&& d.len() == 2
                    &&& d[0] == current
                    &&& d[1] == seq
                },
                SequencerEvent::UnexpectedCompletion { op_code } => d.len() == 4
                    && bytes::sum_of_four(d, 0) == op_code,
                SequencerEvent::ModeSwitched { mode } => d.len() == 1 && d[0] == mode.code(),
                SequencerEvent::SequenceTimeout { command } => d.len() == 4 && bytes::sum_of_four(
                    d,
                    0,
                ) == command,
                SequencerEvent::CmdStepped { command } => d.len() == 4 && bytes::sum_of_four(d, 0)
                    == command,
                SequencerEvent::JoinWaiting { record_number, op_code } => {
                    &&& d.len() == 8
                    &&& bytes::sum_of_four(d, 0) == record_number
                    &&& bytes::sum_of_four(d, 4) == op_code
                },
                _ => d.len() == 0,
            }
        }),
{
    let d = e.detail();
    let none = Seq::<u8>::empty();
    assert(d =~= d + none);
    match e {
        SequencerEvent::FileInvalid { stage, error } => {
            bytes::law_numbers_add_up(seq![stage.code()], bytes::bits32(error), 0, none);
            bytes::law_signed_numbers(0, error, 0, 0);
        },
        SequencerEvent::RecordInvalid { record_number, error } => {
            bytes::law_numbers_in_a_row(record_number, bytes::bits32(error), 0, none);
            bytes::law_signed_numbers(0, error, 0, 0);
        },
        SequencerEvent::FileSizeError { size } => {
            bytes::law_numbers_in_a_row(size, 0, 0, none);
        },
        SequencerEvent::FileCrcFailure { stored, computed } => {
            bytes::law_numbers_in_a_row(stored, computed, 0, none);
        },
        SequencerEvent::CommandComplete { record_number, op_code } => {
            bytes::law_numbers_in_a_row(record_number, op_code, 0, none);
        },
        SequencerEvent::CommandError { record_number, op_code, error_status } => {
            bytes::law_numbers_in_a_row(record_number, op_code, error_status, none);
        },
        SequencerEvent::RecordMismatch { header_records, extra_bytes } => {
            bytes::law_numbers_in_a_row(header_records, extra_bytes, 0, none);
        },
        SequencerEvent::TimeBaseMismatch { current, seq } => {
            let first = bytes::be16(current.code());
            assert(d =~= none + first + bytes::be16(seq.code()));
            bytes::law_numbers_add_up(none, 0, current.code(), bytes::be16(seq.code()));
            bytes::law_numbers_add_up(first, 0, seq.code(), none);
        },
        SequencerEvent::UnexpectedCompletion { op_code } => {
            bytes::law_numbers_in_a_row(op_code, 0, 0, none);
        },
        SequencerEvent::SequenceTimeout { command } => {
            bytes::law_numbers_in_a_row(command, 0, 0, none);
        },
        SequencerEvent::CmdStepped { command } => {
            bytes::law_numbers_in_a_row(command, 0, 0, none);
        },
        SequencerEvent::JoinWaiting { record_number, op_code } => {
            bytes::law_numbers_in_a_row(record_number, op_code, 0, none);
        },
        _ => {},
    }
}

/// A counter is telemetry on its channel, in four bytes, and the name of the running sequence
/// on a channel of its own, behind its length and up to 240 bytes of it. Nothing else is
/// telemetry.
pub proof fn law_telemetry(a: Action<Seq<u8>>)
    ensures
        match a {
            Action::Counter { channel, value } => {
                &&& a.telemetry() matches Some((c, w))
                &&& c == channel
                &&& w.len() == 4
                &&& bytes::sum_of_four(w, 0) == value
            },
            Action::CurrentSequence { name } => {
                let length = if name.len() <= 240 {
                    name.len() as int
                } else {
                    240
                };
                &&& a.telemetry() matches Some((c, w))
                &&& c == 5
                &&& w.len() == 2 + length
                &&& bytes::sum_of_two(w, 0) == length
                &&& w.subrange(2, 2 + length) == name.subrange(0, length)
            },
            _ => a.telemetry() is None,
        },
{
    match a {
        Action::Counter { value, .. } => {
            let none = Seq::<u8>::empty();
            bytes::law_numbers_in_a_row(value, 0, 0, none);
            assert(bytes::be32(value) + none =~= bytes::be32(value));
        },
        Action::CurrentSequence { name } => {
            if name.len() <= 240 {
                assert(name.subrange(0, name.len() as int) =~= name);
                bytes::law_string_layout(name);
            } else {
                bytes::law_string_layout(name.subrange(0, 240));
            }
        },
        _ => {},
    }
}

} // verus!
