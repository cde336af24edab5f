//! What the events of the logger are on the wire.
use vstd::prelude::*;

use super::dictionary;
use super::dictionary::LoggerEvent;
use crate::fw::bytes;
use crate::fw::types::LogSeverity;

verus! {

broadcast use crate::fw::bytes::lemma_be32_len;

/// Each kind of event has a number of its own, and says how serious it is: what was lost is
/// a serious warning, and a file that was closed is for diagnosis.
pub proof fn law_event_numbers(e: LoggerEvent<Seq<u8>>)
    ensures
        e is FileOpenError <==> e.id_spec() == 0,
        e is FileWriteError <==> e.id_spec() == 1,
        e is FileValidationError <==> e.id_spec() == 2,
        e is FileClosed <==> e.id_spec() == 3,
        e is FileNotInitialized <==> e.id_spec() == 4,
        e.severity_spec() == LogSeverity::WarningHi <==> e is FileOpenError || e is FileWriteError,
        e.severity_spec() == LogSeverity::WarningLo <==> e is FileValidationError
            || e is FileNotInitialized,
        e.severity_spec() == LogSeverity::Diagnostic <==> e is FileClosed,
{
}

/// An event carries a name as it is, up to 200 bytes of it.
pub proof fn law_names_are_cut(name: Seq<u8>)
    ensures
        name.len() <= 200 ==> dictionary::cut(name) == name,
        name.len() > 200 ==> dictionary::cut(name) == name.subrange(0, 200),
{
}

/// The arguments of an event follow each other in the order in which the event has them, four
/// bytes for a number, and a name behind its length.
pub proof fn law_event_arguments(e: LoggerEvent<Seq<u8>>)
    ensures
        ({
            let w = e.wire();
            match e {
                LoggerEvent::FileOpenError { errornum, file } => {
                    let name = dictionary::cut(file);
                    &&& w.len() == 6 + name.len()
                    &&& bytes::sum_of_four(w, 0) == errornum
                    &&& bytes::sum_of_two(w, 4) == name.len()
                    &&& w.subrange(6, 6 + name.len() as int) == name
                },
                LoggerEvent::FileWriteError { errornum, bytes_written, bytes_to_write, file } => {
                    let name = dictionary::cut(file);
                    &&& w.len() == 14 + name.len()
                    &&& bytes::sum_of_four(w, 0) == errornum
                    &&& bytes::sum_of_four(w, 4) == bytes_written
                    &&& bytes::sum_of_four(w, 8) == bytes_to_write
                    &&& bytes::sum_of_two(w, 12) == name.len()
                    &&& w.subrange(14, 14 + name.len() as int) == name
                },
                LoggerEvent::FileValidationError { validation_file, file, status } => {
                    let first = dictionary::cut(validation_file);
                    let second = dictionary::cut(file);
                    let n = 2 + first.len() as int;
                    &&& w.len() == n + 2 + second.len() + 4
                    &&& bytes::sum_of_two(w, 0) == first.len()
                    &&& w.subrange(2, n) == first
                    &&& bytes::sum_of_two(w, n) == second.len()
                    &&& w.subrange(n + 2, n + 2 + second.len()) == second
                    &&& bytes::sum_of_four(w, n + 2 + second.len()) == status
                },
                LoggerEvent::FileClosed { file } => {
                    let name = dictionary::cut(file);
                    &&& w.len() == 2 + name.len()
                    &&& bytes::sum_of_two(w, 0) == name.len()
                    &&& w.subrange(2, 2 + name.len() as int) == name
                },
                LoggerEvent::FileNotInitialized => w.len() == 0,
            }
        }),
{
    let w = e.wire();
    let none = Seq::<u8>::empty();
    match e {
        LoggerEvent::FileOpenError { errornum, file } => {
            let name = dictionary::cut(file);
            let length = bytes::be16(name.len() as u16);
            bytes::law_numbers_in_a_row(errornum, 0, 0, bytes::be_string(name));
            assert(w =~= bytes::be32(errornum) + length + name);
            bytes::law_numbers_add_up(bytes::be32(errornum), 0, name.len() as u16, name);
            assert(w.subrange(6, 6 + name.len() as int) =~= name);
        },
        LoggerEvent::FileWriteError { errornum, bytes_written, bytes_to_write, file } => {
            let name = dictionary::cut(file);
            let length = bytes::be16(name.len() as u16);
            bytes::law_numbers_in_a_row(
                errornum,
                bytes_written,
                bytes_to_write,
                bytes::be_string(name),
            );
            let front = bytes::be32(errornum) + bytes::be32(bytes_written) + bytes::be32(
                bytes_to_write,
            );
            assert(w =~= front + length + name);
            bytes::law_numbers_add_up(front, 0, name.len() as u16, name);
            assert(w.subrange(14, 14 + name.len() as int) =~= name);
        },
        LoggerEvent::FileValidationError { validation_file, file, status } => {
            let first = dictionary::cut(validation_file);
            let second = dictionary::cut(file);
            let n = 2 + first.len() as int;
            let one = bytes::be_string(first);
            let two = bytes::be_string(second);
            let end = bytes::be32(status);
            assert(w =~= none + bytes::be16(first.len() as u16) + (first + two + end));
            bytes::law_numbers_add_up(none, 0, first.len() as u16, first + two + end);
            assert(w.subrange(2, n) =~= first);
            assert(w =~= one + bytes::be16(second.len() as u16) + (second + end));
            bytes::law_numbers_add_up(one, 0, second.len() as u16, second + end);
            assert(w.subrange(n + 2, n + 2 + second.len()) =~= second);
            assert(w =~= (one + two) + end + none);
            bytes::law_numbers_add_up(one + two, status, 0, none);
        },
        LoggerEvent::FileClosed { file } => {
            bytes::law_string_layout(dictionary::cut(file));
        },
        LoggerEvent::FileNotInitialized => {},
    }
}

} // verus!
