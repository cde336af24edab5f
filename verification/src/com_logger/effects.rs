//! What each input does to the logger and what it puts out, and that it does nothing else.
use vstd::prelude::*;

use super::dictionary;
use super::dictionary::{Action, LoggerEvent};
use super::messages::{Content, Message};
use super::model::{AfterClose, LoggerState, Task, Trace};
use super::validation;
use super::validation::{StatusFileType, ValidateStatus};
use crate::fw::counter;
use crate::fw::decimal;
use crate::fw::throttle::EventThrottle;
use crate::fw::time::Time;
use crate::fw::types::{CmdResponse, FileStatus};

verus! {

/// A packet that comes in while no file is open has a file opened for it, under the name of
/// the present time, and waits for that; whatever was logged and closed before, and under
/// whatever name. Nothing else changes.
pub proof fn law_packet_opens_a_file(t: Trace, record: Seq<u8>, now: Time)
    requires
        t.state.valid(),
        t.state.initialized,
        t.state.task is Idle,
        !t.state.open,
    ensures
        ({
            let s = t.state;
            let after = t.com_in(record, now);
            let name = dictionary::file_name(s.file_prefix, now);
            &&& after.out == t.out.push(Action::OpenFile { name })
            &&& after.state == (LoggerState {
                file_name: name,
                hash_file_name: after.state.hash_file_name,
                task: Task::Opening { record },
                ..s
            })
            &&& after.state.hash_file_name.len() == name.len() + 6
            &&& after.state.hash_file_name.take(name.len() as int) == name
        }),
{
    let name = dictionary::file_name(t.state.file_prefix, now);
    assert(dictionary::hash_name(name).take(name.len() as int) =~= name);
}

/// When the file is opened, the record that it was opened for is written at its start, in
/// front of it its length where lengths are stored: in two bytes, the most significant
/// first. The bytes are counted from the start of the file.
pub proof fn law_record_begins_the_file(t: Trace, record: Seq<u8>, now: Time)
    requires
        t.state.valid(),
        t.state.initialized,
        t.state.task is Idle,
        !t.state.open,
        record.len() <= 0xFFFF,
    ensures
        ({
            let s = t.state;
            let asked = t.com_in(record, now);
            let opened = asked.file_opened(FileStatus::OpOk);
            let n = asked.out.len() as int;
            &&& opened.state.open
            &&& opened.state.byte_count == 0
            &&& !opened.state.open_error
            &&& opened.out.len() == n + 1
            &&& opened.out.take(n) == asked.out
            &&& opened.out[n] is WriteFile
            &&& if s.store_buffer_length {
                let length = opened.out[n]->WriteFile_data;
                let second = opened.file_written(FileStatus::OpOk, 2);
                let done = second.file_written(FileStatus::OpOk, record.len() as u64);
                &&& length.len() == 2
                &&& length[0] * 256 + length[1] == record.len()
                &&& second.out == opened.out.push(Action::WriteFile { data: record })
                &&& done.out == second.out
                &&& done.state.byte_count == record.len() + 2
                &&& done.state.task is Idle
                &&& done.state.open
            } else {
                let done = opened.file_written(FileStatus::OpOk, record.len() as u64);
                &&& opened.out[n]->WriteFile_data == record
                &&& done.out == opened.out
                &&& done.state.byte_count == record.len()
                &&& done.state.task is Idle
                &&& done.state.open
            }
        }),
{
    let asked = t.com_in(record, now);
    let opened = asked.file_opened(FileStatus::OpOk);
    assert(opened.out.take(asked.out.len() as int) =~= asked.out);
}

/// A packet that comes in while a file is open is written to it if the file does not grow
/// past the limit, and otherwise has the file closed first. Until then nothing changes but
/// what the logger waits for.
pub proof fn law_packet_for_an_open_file(t: Trace, record: Seq<u8>, now: Time)
    requires
        t.state.valid(),
        t.state.task is Idle,
        t.state.open,
        record.len() <= 0xFFFF,
    ensures
        ({
            let s = t.state;
            let after = t.com_in(record, now);
            let n = t.out.len() as int;
            let size = record.len() + if s.store_buffer_length {
                2int
            } else {
                0int
            };
            let grown = (s.byte_count + size) % 0x1_0000_0000;
            &&& after.state == (LoggerState { task: after.state.task, ..s })
            &&& after.out.len() == n + 1
            &&& after.out.take(n) == t.out
            &&& grown > s.max_file_size ==> {
                &&& after.state.task == (Task::Closing { after: AfterClose::Log { record } })
                &&& after.out[n] == Action::<Seq<u8>>::CloseFile {
                    name: s.file_name,
                    hash_name: s.hash_file_name,
                }
            }
            &&& grown <= s.max_file_size && s.store_buffer_length ==> {
                &&& after.state.task == (Task::WritingLength { record })
                &&& after.out[n] is WriteFile
                &&& after.out[n]->WriteFile_data.len() == 2
                &&& after.out[n]->WriteFile_data[0] * 256 + after.out[n]->WriteFile_data[1]
                    == record.len()
            }
            &&& grown <= s.max_file_size && !s.store_buffer_length ==> {
                &&& after.state.task == (Task::WritingRecord { record })
                &&& after.out[n] == Action::<Seq<u8>>::WriteFile { data: record }
            }
        }),
{
    let after = t.com_in(record, now);
    assert(after.out.take(t.out.len() as int) =~= t.out);
}

/// A packet that comes in before the logger was set up is dropped, and reported while the
/// limit allows.
pub proof fn law_packet_before_set_up(t: Trace, record: Seq<u8>, now: Time)
    requires
        t.state.valid(),
        t.state.task is Idle,
        !t.state.open,
        !t.state.initialized,
    ensures
        ({
            let s = t.state;
            let after = t.com_in(record, now);
            let allowed = s.throttle.count < s.throttle.limit;
            &&& after.state == (LoggerState { throttle: after.state.throttle, ..s })
            &&& after.state.throttle == if allowed {
                EventThrottle { limit: s.throttle.limit, count: (s.throttle.count + 1) as u32 }
            } else {
                s.throttle
            }
            &&& after.out == if allowed {
                t.out.push(Action::Event(LoggerEvent::FileNotInitialized))
            } else {
                t.out
            }
        }),
{
}

/// A file that was closed is reported, behind a checksum file that could not be made. The
/// logger then goes on with what it closed the file for: a record gets the next file, under
/// the name of the present time, or a command is answered.
pub proof fn law_file_closed(t: Trace, checked: ValidateStatus, now: Time)
    requires
        t.state.valid(),
        t.state.initialized,
        t.state.task is Closing,
    ensures
        ({
            let s = t.state;
            let after = t.file_closed(checked, now);
            let closed = LoggerEvent::<Seq<u8>>::FileClosed { file: s.file_name };
            let reported = if checked == ValidateStatus::ValidationOk {
                t.out.push(Action::Event(closed))
            } else {
                t.out.push(
                    Action::Event(
                        LoggerEvent::FileValidationError {
                            validation_file: s.hash_file_name,
                            file: s.file_name,
                            status: checked.code(),
                        },
                    ),
                ).push(Action::Event(closed))
            };
            match s.task->Closing_after {
                AfterClose::Log { record } => {
                    let name = dictionary::file_name(s.file_prefix, now);
                    &&& after.out == reported.push(Action::OpenFile { name })
                    &&& after.state == (LoggerState {
                        open: false,
                        file_name: name,
                        hash_file_name: dictionary::hash_name(name),
                        task: Task::Opening { record },
                        ..s
                    })
                },
                AfterClose::Answer { op_code, cmd_seq } => {
                    &&& after.out == reported.push(
                        Action::CmdResponse { op_code, cmd_seq, response: CmdResponse::OK },
                    )
                    &&& after.state == (LoggerState { open: false, task: Task::Idle, ..s })
                },
            }
        }),
{
}

/// A file that could not be opened leaves the logger without a file and drops the record it
/// was for. It is reported, with its name and what went wrong, unless the attempt before
/// failed too.
pub proof fn law_open_failed(t: Trace, status: FileStatus)
    requires
        t.state.valid(),
        t.state.task is Opening,
        status != FileStatus::OpOk,
    ensures
        ({
            let s = t.state;
            let after = t.file_opened(status);
            &&& after.state == (LoggerState { open_error: true, task: Task::Idle, ..s })
            &&& !after.state.open
            &&& after.out == if s.open_error {
                t.out
            } else {
                t.out.push(
                    Action::Event(
                        LoggerEvent::FileOpenError {
                            errornum: status.code() as u32,
                            file: s.file_name,
                        },
                    ),
                )
            }
        }),
{
}

/// A length that was written is counted and followed by its record; a record that was
/// written is counted, and the logger is ready for the next. Both clear an error. Nothing
/// else changes.
pub proof fn law_write_succeeded(t: Trace, size: u64)
    requires
        t.state.valid(),
        t.state.task is WritingLength && size == 2 || t.state.task is WritingRecord && size
            == t.state.task->WritingRecord_record.len(),
    ensures
        ({
            let s = t.state;
            let after = t.file_written(FileStatus::OpOk, size);
            &&& after.state == (LoggerState {
                write_error: false,
                byte_count: after.state.byte_count,
                task: after.state.task,
                ..s
            })
            &&& after.state.byte_count == (s.byte_count + size) % 0x1_0000_0000
            &&& s.task matches Task::WritingLength { record } ==> {
                &&& after.state.task == (Task::WritingRecord { record })
                &&& after.out == t.out.push(Action::WriteFile { data: record })
            }
            &&& s.task is WritingRecord ==> {
                &&& after.state.task is Idle
                &&& after.out == t.out
            }
        }),
{
}

/// A write that failed, or wrote less or more than it should have, drops what is left of the
/// record and leaves the file open; nothing is counted. It is reported with how much was
/// written of how much, unless the write before failed too.
pub proof fn law_write_failed(t: Trace, status: FileStatus, size: u64)
    requires
        t.state.valid(),
        t.state.task is WritingLength || t.state.task is WritingRecord,
        status != FileStatus::OpOk || size != if t.state.task is WritingLength {
            2nat
        } else {
            t.state.task->WritingRecord_record.len()
        },
    ensures
        ({
            let s = t.state;
            let after = t.file_written(status, size);
            let length = if s.task is WritingLength {
                2nat
            } else {
                s.task->WritingRecord_record.len()
            };
            &&& after.state == (LoggerState { write_error: true, task: Task::Idle, ..s })
            &&& after.out == if s.write_error {
                t.out
            } else {
                t.out.push(
                    Action::Event(
                        LoggerEvent::FileWriteError {
                            errornum: status.code() as u32,
                            bytes_written: (size as int % 0x1_0000_0000) as u32,
                            bytes_to_write: length as u32,
                            file: s.file_name,
                        },
                    ),
                )
            }
        }),
{
}

/// The one command, whose opcode is the base, closes the open file and is answered once that
/// is done; without an open file it is answered at once. With arguments it is malformed, and
/// any other opcode is unknown; both do nothing.
pub proof fn law_close_command(t: Trace, op_code: u32, cmd_seq: u32, args: Seq<u8>)
    requires
        t.state.valid(),
        t.state.task is Idle,
    ensures
        ({
            let s = t.state;
            let after = t.command(op_code, cmd_seq, args);
            let closes = op_code == s.id_base && args.len() == 0 && s.open;
            let response = if op_code != s.id_base {
                CmdResponse::InvalidOpcode
            } else if args.len() != 0 {
                CmdResponse::FormatError
            } else {
                CmdResponse::OK
            };
            &&& closes ==> {
                &&& after.out == t.out.push(
                    Action::CloseFile { name: s.file_name, hash_name: s.hash_file_name },
                )
                &&& after.state == (LoggerState {
                    task: Task::Closing { after: AfterClose::Answer { op_code, cmd_seq } },
                    ..s
                })
            }
            &&& !closes ==> {
                &&& after.out == t.out.push(Action::CmdResponse { op_code, cmd_seq, response })
                &&& after.state == s
            }
        }),
{
    counter::law_offset_leads_back(op_code, t.state.id_base);
}

/// A ping is answered with its number where anyone listens, and changes nothing. Going out of
/// use closes an open file, without a report, and does nothing without one.
pub proof fn law_ping_and_shut_down(t: Trace, key: u32)
    ensures
        t.ping(key).state == t.state,
        t.ping(key).out == if t.state.ping_connected {
            t.out.push(Action::PingOut { key })
        } else {
            t.out
        },
        !t.state.open ==> t.shut_down() == t,
        t.state.open ==> t.shut_down() == (Trace {
            state: LoggerState { open: false, task: Task::Idle, ..t.state },
            out: t.out.push(
                Action::CloseFile {
                    name: t.state.file_name,
                    hash_name: t.state.hash_file_name,
                },
            ),
        }),
{
}

/// Each message does what the input that it stands for does: a packet, a ping or a command.
pub proof fn law_messages_are_the_inputs(t: Trace, m: Message<Seq<u8>>, now: Time)
    ensures
        m.content matches Content::Com { data, context } ==> t.handle(m, now) == t.com_in(
            data,
            now,
        ),
        m.content matches Content::Ping { key } ==> t.handle(m, now) == t.ping(key),
        m.content matches Content::Cmd { op_code, cmd_seq, args } ==> t.handle(m, now)
            == t.command(op_code, cmd_seq, args),
{
}

/// A file name starts with the prefix and ends in `.com`; between them stand, each behind an
/// underscore, the digits of the time base, of the seconds and of the microseconds, the last
/// six at least. The checksum file is named after the file, with `.CRC32` at its end.
pub proof fn law_file_names(prefix: Seq<u8>, now: Time)
    requires
        now.wf(),
    ensures
        ({
            let name = dictionary::file_name(prefix, now);
            let base = decimal::digits(now.base.code() as nat);
            let seconds = decimal::digits(now.seconds as nat);
            let useconds = decimal::padded(now.useconds as nat, 6);
            let first = prefix.len() as int + 1;
            let second = first + base.len() + 1;
            let third = second + seconds.len() + 1;
            let end = third + useconds.len();
            &&& name.len() == end + 4
            &&& name.take(prefix.len() as int) == prefix
            &&& name[first - 1] == '_' as u8
            &&& name.subrange(first, first + base.len()) == base
            &&& name[second - 1] == '_' as u8
            &&& name.subrange(second, second + seconds.len()) == seconds
            &&& name[third - 1] == '_' as u8
            &&& name.subrange(third, end) == useconds
            &&& name.subrange(end, end + 4) == seq!['.' as u8, 'c' as u8, 'o' as u8, 'm' as u8]
            &&& dictionary::hash_name(name) == name + seq![
                '.' as u8,
                'C' as u8,
                'R' as u8,
                'C' as u8,
                '3' as u8,
                '2' as u8,
            ]
            &&& decimal::value_of(base) == now.base.code()
            &&& decimal::value_of(seconds) == now.seconds
        }),
{
    let name = dictionary::file_name(prefix, now);
    let base = decimal::digits(now.base.code() as nat);
    let seconds = decimal::digits(now.seconds as nat);
    let useconds = decimal::padded(now.useconds as nat, 6);
    let first = prefix.len() as int + 1;
    let second = first + base.len() + 1;
    let third = second + seconds.len() + 1;
    let end = third + useconds.len();
    assert(name.take(prefix.len() as int) =~= prefix);
    assert(name.subrange(first, first + base.len()) =~= base);
    assert(name.subrange(second, second + seconds.len()) =~= seconds);
    assert(name.subrange(third, end) =~= useconds);
    assert(name.subrange(end, end + 4) =~= seq!['.' as u8, 'c' as u8, 'o' as u8, 'm' as u8]);
    decimal::law_digits_round_trip(now.base.code() as nat);
    decimal::law_digits_round_trip(now.seconds as nat);
}

/// What goes wrong with the file and what goes wrong with its checksum file are told apart,
/// where both have a name; a full device is the same for either, and whatever has no name is
/// some other error. Success is success, and nothing else is.
pub proof fn law_statuses_are_told_apart(status: FileStatus)
    ensures
        ({
            let file = validation::translated(status, StatusFileType::File);
            let hash = validation::translated(status, StatusFileType::HashFile);
            &&& file == ValidateStatus::ValidationOk <==> status == FileStatus::OpOk
            &&& hash == ValidateStatus::ValidationOk <==> status == FileStatus::OpOk
            &&& file == ValidateStatus::FileDoesntExist <==> status == FileStatus::DoesntExist
            &&& hash == ValidateStatus::ValidationFileDoesntExist <==> status
                == FileStatus::DoesntExist
            &&& file == ValidateStatus::FileNoPermission <==> status == FileStatus::NoPermission
            &&& hash == ValidateStatus::ValidationFileNoPermission <==> status
                == FileStatus::NoPermission
            &&& file == ValidateStatus::FileBadSize <==> status == FileStatus::BadSize
            &&& hash == ValidateStatus::ValidationFileBadSize <==> status == FileStatus::BadSize
            &&& file == ValidateStatus::NoSpace <==> status == FileStatus::NoSpace
            &&& hash == ValidateStatus::NoSpace <==> status == FileStatus::NoSpace
            &&& file == hash <==> {
                ||| file == ValidateStatus::ValidationOk
                ||| file == ValidateStatus::NoSpace
                ||| file == ValidateStatus::OtherError
            }
        }),
{
}

/// At first the logger is not set up, has no file and waits for nothing.
pub proof fn law_starts_without_a_file(id_base: u32)
    ensures
        ({
            let s = LoggerState::initial(id_base);
            &&& s.id_base == id_base
            &&& !s.ping_connected
            &&& !s.initialized
            &&& !s.open
            &&& !s.write_error
            &&& !s.open_error
            &&& s.byte_count == 0
            &&& s.throttle == (EventThrottle { limit: 5, count: 0 })
            &&& s.task is Idle
        }),
{
}

/// A file that is read until a read finds nothing more may take one read for every full or
/// begun chunk of 256 bytes and one that finds nothing, and never more than one beyond that.
pub proof fn law_reads_are_limited(file_size: nat)
    ensures
        validation::read_limit(file_size) * 256 >= file_size + 256,
        (validation::read_limit(file_size) - 2) * 256 <= file_size,
{
}

/// A packet can be taken at the one port while a file is open, or where the names that would be
/// made for it are at most 240 bytes long; so can the end of a file that is closed for one.
pub proof fn law_what_can_be_taken(s: LoggerState, m: Message<Seq<u8>>, now: Time)
    ensures
        s.name_fits(now) <==> !s.initialized || dictionary::file_name(s.file_prefix, now).len() + 6
            <= 240,
        s.takes_message(m, now) <==> !(m.content is Com) || m.port == 0 && (s.open || s.name_fits(
            now,
        )),
        s.can_go_on(now) <==> match s.task {
            Task::Closing { after: AfterClose::Log { .. } } => s.name_fits(now),
            _ => true,
        },
{
}

} // verus!
