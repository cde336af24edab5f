//! What holds of the logger as a whole.
use vstd::prelude::*;

use super::dictionary;
use super::dictionary::{Action, LoggerEvent};
use super::model::{LoggerState, Task, Trace};
use super::validation::ValidateStatus;
use crate::fw::bytes;
use crate::fw::counter;
use crate::fw::throttle;
use crate::fw::time::Time;
use crate::fw::types::{CmdResponse, FileStatus};

verus! {

/// What a record is in the file.
pub open spec fn framed(store_buffer_length: bool, record: Seq<u8>) -> Seq<u8> {
    if store_buffer_length {
        bytes::be_string(record)
    } else {
        record
    }
}

/// The bytes that the outputs append to the file.
pub open spec fn appended(out: Seq<Action<Seq<u8>>>) -> Seq<u8>
    decreases out.len(),
{
    if out.len() == 0 {
        Seq::empty()
    } else {
        let before = appended(out.drop_last());
        match out.last() {
            Action::WriteFile { data } => before + data,
            _ => before,
        }
    }
}

proof fn lemma_appended_push(out: Seq<Action<Seq<u8>>>, a: Action<Seq<u8>>)
    ensures
        appended(out.push(a)) == (match a {
            Action::WriteFile { data } => appended(out) + data,
            _ => appended(out),
        }),
{
    assert(out.push(a).drop_last() =~= out);
}

/// Logs a record to the open file, every write succeeding.
pub open spec fn logged(t: Trace, record: Seq<u8>) -> Trace {
    let started = t.write_record(record);
    if t.state.store_buffer_length {
        started.file_written(FileStatus::OpOk, 2).file_written(
            FileStatus::OpOk,
            record.len() as u64,
        )
    } else {
        started.file_written(FileStatus::OpOk, record.len() as u64)
    }
}

/// A record that is logged with every write succeeding stands in the file after what was
/// there, preceded by its length where lengths are stored; the bytes are counted, and the
/// logger is ready for the next record.
pub proof fn law_record_is_written(t: Trace, record: Seq<u8>)
    requires
        t.state.valid(),
        t.state.open,
        t.state.task is Idle,
        record.len() <= 0xFFFF,
    ensures
        appended(logged(t, record).out) == appended(t.out) + framed(
            t.state.store_buffer_length,
            record,
        ),
        logged(t, record).state == (LoggerState {
            byte_count: counter::advanced(
                t.state.byte_count,
                framed(t.state.store_buffer_length, record).len(),
            ),
            write_error: false,
            ..t.state
        }),
{
    let started = t.write_record(record);
    lemma_appended_push(t.out, started.out.last());
    assert(started.out =~= t.out.push(started.out.last()));
    if t.state.store_buffer_length {
        let length = bytes::be16(record.len() as u16);
        let second = started.file_written(FileStatus::OpOk, 2);
        lemma_appended_push(started.out, second.out.last());
        assert(second.out =~= started.out.push(second.out.last()));
        assert(appended(t.out) + length + record =~= appended(t.out) + bytes::be_string(record));
        let a = t.state.byte_count as int;
        vstd::arithmetic::div_mod::lemma_add_mod_noop(a + 2, record.len() as int, 0x1_0000_0000);
        assert((a + 2 + record.len()) % 0x1_0000_0000 == ((a + 2) % 0x1_0000_0000 + record.len())
            % 0x1_0000_0000) by {
            vstd::arithmetic::div_mod::lemma_add_mod_noop_right(
                record.len() as int,
                a + 2,
                0x1_0000_0000,
            );
        }
        assert(logged(t, record).state =~= (LoggerState {
            byte_count: counter::advanced(
                t.state.byte_count,
                framed(t.state.store_buffer_length, record).len(),
            ),
            write_error: false,
            ..t.state
        }));
    } else {
        assert(logged(t, record).state =~= (LoggerState {
            byte_count: counter::advanced(
                t.state.byte_count,
                framed(t.state.store_buffer_length, record).len(),
            ),
            write_error: false,
            ..t.state
        }));
    }
}

/// A record preceded by its length can be read back from the file, wherever it stands.
pub proof fn law_record_reads_back(before: Seq<u8>, record: Seq<u8>, after: Seq<u8>)
    requires
        record.len() <= 0xFFFF,
    ensures
        bytes::string_read(before + framed(true, record) + after, before.len() as int, 0xFFFF) == Ok::<
            Seq<u8>,
            bytes::SerializeStatus,
        >(record),
{
    bytes::law_string_round_trip(before, record, after, 0xFFFF);
}

/// A record goes to the open file only where there is room for it up to the limit; where
/// there is none, the file is closed before anything is written.
pub proof fn law_record_goes_where_it_fits(t: Trace, record: Seq<u8>, now: Time)
    requires
        t.state.valid(),
        t.state.open,
        t.state.task is Idle,
        record.len() <= 0xFFFF,
        t.state.byte_count + record.len() + 2 <= u32::MAX,
    ensures
        ({
            let size = framed(t.state.store_buffer_length, record).len();
            let after = t.com_in(record, now);
            if t.state.byte_count + size <= t.state.max_file_size {
                &&& after == t.write_record(record)
                &&& logged(t, record).state.byte_count <= t.state.max_file_size
            } else {
                &&& after.out == t.out.push(
                    Action::CloseFile {
                        name: t.state.file_name,
                        hash_name: dictionary::hash_name(t.state.file_name),
                    },
                )
                &&& after.state.task is Closing
            }
        }),
{
    law_record_is_written(t, record);
}

/// When a file is full, the record that did not fit begins the next one.
pub proof fn law_rotation(
    t: Trace,
    record: Seq<u8>,
    now: Time,
    later: Time,
    validation: ValidateStatus,
)
    requires
        t.state.valid(),
        t.state.task is Idle,
        t.state.is_full_for(record.len()),
        t.state.initialized,
        record.len() <= 0xFFFF,
    ensures
        ({
            let name = dictionary::file_name(t.state.file_prefix, later);
            let closed = t.com_in(record, now).file_closed(validation, later);
            let next = closed.file_opened(FileStatus::OpOk);
            &&& closed.out.last() == Action::OpenFile { name }
            &&& next.state.open
            &&& next.state.file_name == name
            &&& next.state.byte_count == 0
            &&& next.out.last() == Action::WriteFile {
                data: if t.state.store_buffer_length {
                    bytes::be16(record.len() as u16)
                } else {
                    record
                },
            }
        }),
{
}

/// Closing a file is reported, after a report of a checksum file that could not be made.
pub proof fn law_closing_is_reported(t: Trace, validation: ValidateStatus, now: Time)
    requires
        t.state.valid(),
        t.state.task is Closing,
    ensures
        ({
            let after = t.file_closed(validation, now);
            let n = t.out.len() as int;
            if validation == ValidateStatus::ValidationOk {
                after.out[n] == Action::Event(
                    LoggerEvent::FileClosed { file: t.state.file_name },
                )
            } else {
                &&& after.out[n] == Action::Event(
                    LoggerEvent::FileValidationError {
                        validation_file: dictionary::hash_name(t.state.file_name),
                        file: t.state.file_name,
                        status: validation.code(),
                    },
                )
                &&& after.out[n + 1] == Action::Event(
                    LoggerEvent::FileClosed { file: t.state.file_name },
                )
            }
        }),
        !t.file_closed(validation, now).state.open,
{
}

/// Going out of use closes an open file and makes its checksum file, but reports nothing.
pub proof fn law_shut_down_is_silent(t: Trace)
    requires
        t.state.valid(),
        t.state.open,
    ensures
        t.shut_down().out == t.out.push(
            Action::CloseFile {
                name: t.state.file_name,
                hash_name: dictionary::hash_name(t.state.file_name),
            },
        ),
        !t.shut_down().state.open,
        t.shut_down().shut_down() == t.shut_down(),
{
}

/// Of attempts to open a file that fail one after the other only the first is reported; a
/// success makes the next failure be reported again.
pub proof fn law_open_error_is_reported_once(t: Trace, status: FileStatus)
    requires
        t.state.valid(),
        t.state.task is Opening,
    ensures
        status != FileStatus::OpOk ==> {
            &&& t.file_opened(status).state.open_error
            &&& t.file_opened(status).state.task is Idle
            &&& t.file_opened(status).out.len() == t.out.len() + (if t.state.open_error {
                0int
            } else {
                1int
            })
        },
        status == FileStatus::OpOk ==> !t.file_opened(status).state.open_error,
{
}

/// Of writes that fail one after the other only the first is reported; a success makes the
/// next failure be reported again. A failure leaves the file open, and a record whose
/// length could not be written is not written either.
pub proof fn law_write_error_is_reported_once(t: Trace, status: FileStatus, size: u64)
    requires
        t.state.valid(),
        t.state.task is WritingLength || t.state.task is WritingRecord,
    ensures
        ({
            let length = match t.state.task {
                Task::WritingLength { .. } => 2nat,
                Task::WritingRecord { record } => record.len(),
                _ => 0nat,
            };
            let after = t.file_written(status, size);
            if status == FileStatus::OpOk && size == length {
                !after.state.write_error
            } else {
                &&& after.state.write_error
                &&& after.state.open
                &&& after.state.task is Idle
                &&& after.state.byte_count == t.state.byte_count
                &&& appended(after.out) == appended(t.out)
                &&& after.out.len() == t.out.len() + (if t.state.write_error {
                    0int
                } else {
                    1int
                })
            }
        }),
{
    let after = t.file_written(status, size);
    if after.out.len() > t.out.len() {
        lemma_appended_push(t.out, after.out.last());
        assert(after.out =~= t.out.push(after.out.last()));
    }
}

/// A logger that has not been set up drops every packet and reports as many as the limit.
pub proof fn law_not_set_up(t: Trace, record: Seq<u8>, now: Time, n: nat)
    requires
        t.state.valid(),
        !t.state.initialized,
        !t.state.open,
        t.state.task is Idle,
    ensures
        !t.com_in(record, now).state.open,
        t.com_in(record, now).state.task is Idle,
        t.com_in(record, now).state.throttle == t.state.throttle.tried(),
        t.com_in(record, now).out == (if t.state.throttle.open() {
            t.out.push(Action::Event(LoggerEvent::FileNotInitialized))
        } else {
            t.out
        }),
        t.state.throttle.count == 0 ==> (throttle::tried_times(t.state.throttle, n).open() <==> n
            < t.state.throttle.limit),
{
    if t.state.throttle.count == 0 {
        throttle::law_throttle_lets_limit_through(t.state.throttle, n);
    }
}

/// The command to close the file is answered once: at once where nothing is open, and
/// otherwise when the file has been closed.
pub proof fn law_close_command_is_answered(
    t: Trace,
    op_code: u32,
    cmd_seq: u32,
    validation: ValidateStatus,
    now: Time,
)
    requires
        t.state.valid(),
        t.state.task is Idle,
        counter::offset_from(op_code, t.state.id_base) == dictionary::OPCODE_CLOSE_FILE,
    ensures
        ({
            let asked = t.command(op_code, cmd_seq, Seq::empty());
            let done = if t.state.open {
                asked.file_closed(validation, now)
            } else {
                asked
            };
            &&& t.state.open ==> asked.out.last() is CloseFile && asked.out.len() == t.out.len()
                + 1
            &&& done.out.last() == Action::<Seq<u8>>::CmdResponse {
                op_code,
                cmd_seq,
                response: CmdResponse::OK,
            }
            &&& done.state.task is Idle
            &&& !done.state.open
        }),
{
}

} // verus!
