//! Queued messages: putting them together, taking them apart, and handing them to the
//! sequencer.
use vstd::prelude::*;

use super::component;
use super::component::CmdSequencer;
use super::dictionary::{Action, FILE_NAME_STRING_SIZE};
use super::format::{LoadOutcome, Sequence};
use super::fprime_sequence::FPrimeSequence;
use super::model;
use super::model::{Inputs, SequencerState, Trace};
use super::types::SeqArgs;
use crate::fw::bytes;
use crate::fw::envelope;
use crate::fw::envelope::CMD_ARG_BUFFER_MAX_SIZE;
use crate::fw::time::Time;
use crate::fw::types;
use crate::fw::types::{CmdResponse, MsgDispatchStatus};

verus! {

broadcast use crate::fw::bytes::lemma_be32_len;

/// Message type of a request to cancel.
pub const MSG_TYPE_SEQ_CANCEL_IN: i32 = 1;

/// Message type of a command response.
pub const MSG_TYPE_CMD_RESPONSE_IN: i32 = 2;

/// Message type of a ping.
pub const MSG_TYPE_PING_IN: i32 = 3;

/// Message type of a request to run a sequence.
pub const MSG_TYPE_SEQ_RUN_IN: i32 = 4;

/// Message type of a file name of a sequence to be run.
pub const MSG_TYPE_SEQ_DISPATCH_IN: i32 = 5;

/// Message type of a tick of the scheduler.
pub const MSG_TYPE_SCHED_IN: i32 = 6;

/// Message type of a command.
pub const MSG_TYPE_CMD_IN: i32 = 7;

/// How large a queued message can be: type and port, opcode, sequence number, and the
/// arguments of a command with their length.
pub const QUEUE_MSG_SIZE: usize = 522;

/// A queued message. `B` holds bytes: a `Vec<u8>` in memory, a `Seq<u8>` in
/// contracts.
#[derive(Debug)]
pub enum Message<B = Vec<u8>> {
    /// Cancel the running sequence.
    SeqCancel,
    /// A command of the sequence has been answered.
    CmdResponse { op_code: u32, cmd_seq: u32, response: CmdResponse },
    /// A ping.
    Ping { key: u32 },
    /// Run a sequence. The arguments, which are held as they are on the wire, go unused.
    SeqRun { name: B, args: B },
    /// Run a sequence.
    SeqDispatch { name: B },
    /// A tick of the scheduler.
    Sched { context: u32 },
    /// A command.
    Cmd { op_code: u32, cmd_seq: u32, args: B },
}

impl View for Message<Vec<u8>> {
    type V = Message<Seq<u8>>;

    open spec fn view(&self) -> Message<Seq<u8>> {
        match self {
            Message::SeqCancel => Message::SeqCancel,
            Message::CmdResponse { op_code, cmd_seq, response } => Message::CmdResponse {
                op_code: *op_code,
                cmd_seq: *cmd_seq,
                response: *response,
            },
            Message::Ping { key } => Message::Ping { key: *key },
            Message::SeqRun { name, args } => Message::SeqRun { name: name@, args: args@ },
            Message::SeqDispatch { name } => Message::SeqDispatch { name: name@ },
            Message::Sched { context } => Message::Sched { context: *context },
            Message::Cmd { op_code, cmd_seq, args } => Message::Cmd {
                op_code: *op_code,
                cmd_seq: *cmd_seq,
                args: args@,
            },
        }
    }
}

/// The message of type `msg_type` that `buf` holds after a port number, if it does.
pub open spec fn message_of(msg_type: i32, buf: Seq<u8>) -> Option<Message<Seq<u8>>> {
    if bytes::u16_read(buf, 0) is Err {
        None
    } else if msg_type == MSG_TYPE_SEQ_CANCEL_IN {
        Some(Message::SeqCancel)
    } else if msg_type == MSG_TYPE_CMD_RESPONSE_IN {
        match (bytes::u32_read(buf, 2), bytes::u32_read(buf, 6), bytes::u8_read(buf, 10)) {
            (Ok(op_code), Ok(cmd_seq), Ok(raw)) => match CmdResponse::of_code(raw) {
                Some(response) => Some(Message::CmdResponse { op_code, cmd_seq, response }),
                None => None,
            },
            _ => None,
        }
    } else if msg_type == MSG_TYPE_PING_IN {
        match bytes::u32_read(buf, 2) {
            Ok(key) => Some(Message::Ping { key }),
            Err(_) => None,
        }
    } else if msg_type == MSG_TYPE_SEQ_RUN_IN {
        match bytes::string_read(buf, 2, FILE_NAME_STRING_SIZE as int) {
            Ok(name) => {
                let start = 4 + name.len() as int;
                if buf.len() - start < SeqArgs::SERIALIZED_SIZE {
                    None
                } else {
                    Some(
                        Message::SeqRun {
                            name,
                            args: buf.subrange(start, start + SeqArgs::SERIALIZED_SIZE),
                        },
                    )
                }
            },
            Err(_) => None,
        }
    } else if msg_type == MSG_TYPE_SEQ_DISPATCH_IN {
        match bytes::string_read(buf, 2, FILE_NAME_STRING_SIZE as int) {
            Ok(name) => Some(Message::SeqDispatch { name }),
            Err(_) => None,
        }
    } else if msg_type == MSG_TYPE_SCHED_IN {
        match bytes::u32_read(buf, 2) {
            Ok(context) => Some(Message::Sched { context }),
            Err(_) => None,
        }
    } else if msg_type == MSG_TYPE_CMD_IN {
        match (
            bytes::u32_read(buf, 2),
            bytes::u32_read(buf, 6),
            bytes::string_read(buf, 10, CMD_ARG_BUFFER_MAX_SIZE as int),
        ) {
            (Ok(op_code), Ok(cmd_seq), Ok(args)) => Some(
                Message::Cmd { op_code, cmd_seq, args },
            ),
            _ => None,
        }
    } else {
        None
    }
}

impl Message<Seq<u8>> {
    /// The type of the message.
    pub open spec fn type_code(self) -> i32 {
        match self {
            Message::SeqCancel => MSG_TYPE_SEQ_CANCEL_IN,
            Message::CmdResponse { .. } => MSG_TYPE_CMD_RESPONSE_IN,
            Message::Ping { .. } => MSG_TYPE_PING_IN,
            Message::SeqRun { .. } => MSG_TYPE_SEQ_RUN_IN,
            Message::SeqDispatch { .. } => MSG_TYPE_SEQ_DISPATCH_IN,
            Message::Sched { .. } => MSG_TYPE_SCHED_IN,
            Message::Cmd { .. } => MSG_TYPE_CMD_IN,
        }
    }

    /// Whether the message fits where it is queued.
    pub open spec fn fits(self) -> bool {
        match self {
            Message::SeqRun { name, args } => {
                &&& name.len() <= FILE_NAME_STRING_SIZE
                &&& args.len() == SeqArgs::SERIALIZED_SIZE
            },
            Message::SeqDispatch { name } => name.len() <= FILE_NAME_STRING_SIZE,
            Message::Cmd { args, .. } => args.len() <= CMD_ARG_BUFFER_MAX_SIZE,
            _ => true,
        }
    }

    /// What the message says, on the wire.
    pub open spec fn content_wire(self) -> Seq<u8> {
        match self {
            Message::SeqCancel => Seq::empty(),
            Message::CmdResponse { op_code, cmd_seq, response } => bytes::be32(op_code)
                + bytes::be32(cmd_seq) + seq![response.code()],
            Message::Ping { key } => bytes::be32(key),
            Message::SeqRun { name, args } => bytes::be_string(name) + args,
            Message::SeqDispatch { name } => bytes::be_string(name),
            Message::Sched { context } => bytes::be32(context),
            Message::Cmd { op_code, cmd_seq, args } => envelope::command_wire(
                op_code,
                cmd_seq,
                args,
            ),
        }
    }

    /// The message on the wire: its type, the port that it came in at, and what it says.
    pub open spec fn wire(self, port: i16) -> Seq<u8> {
        envelope::header(self.type_code(), port) + self.content_wire()
    }
}

impl Message<Vec<u8>> {
    /// Puts a message together: its type, the port that it came in at, and what it says.
    pub fn encode(&self, port: i16) -> (r: Vec<u8>)
        requires
            self@.fits(),
        ensures
            r@ == self@.wire(port),
    {
        let mut out: Vec<u8> = Vec::new();
        match self {
            Message::SeqCancel => {
                envelope::push_header(&mut out, MSG_TYPE_SEQ_CANCEL_IN, port);
            },
            Message::CmdResponse { op_code, cmd_seq, response } => {
                envelope::push_header(&mut out, MSG_TYPE_CMD_RESPONSE_IN, port);
                bytes::push_u32(&mut out, *op_code);
                bytes::push_u32(&mut out, *cmd_seq);
                bytes::push_u8(&mut out, response.as_repr());
            },
            Message::Ping { key } => {
                envelope::push_header(&mut out, MSG_TYPE_PING_IN, port);
                bytes::push_u32(&mut out, *key);
            },
            Message::SeqRun { name, args } => {
                envelope::push_header(&mut out, MSG_TYPE_SEQ_RUN_IN, port);
                bytes::push_string(&mut out, name.as_slice());
                bytes::push_bytes(&mut out, args.as_slice());
            },
            Message::SeqDispatch { name } => {
                envelope::push_header(&mut out, MSG_TYPE_SEQ_DISPATCH_IN, port);
                bytes::push_string(&mut out, name.as_slice());
            },
            Message::Sched { context } => {
                envelope::push_header(&mut out, MSG_TYPE_SCHED_IN, port);
                bytes::push_u32(&mut out, *context);
            },
            Message::Cmd { op_code, cmd_seq, args } => {
                envelope::push_header(&mut out, MSG_TYPE_CMD_IN, port);
                envelope::push_command(&mut out, *op_code, *cmd_seq, args.as_slice());
            },
        }
        assert(out@ =~= self@.wire(port));
        out
    }

    /// Takes a message apart.
    pub fn decode(msg_type: i32, buf: &[u8]) -> (r: Option<Self>)
        ensures
            match r {
                Some(m) => message_of(msg_type, buf@) == Some(m@),
                None => message_of(msg_type, buf@) is None,
            },
    {
        if bytes::read_u16(buf, 0).is_err() {
            return None;
        }
        if msg_type == MSG_TYPE_SEQ_CANCEL_IN {
            Some(Message::SeqCancel)
        } else if msg_type == MSG_TYPE_CMD_RESPONSE_IN {
            match (bytes::read_u32(buf, 2), bytes::read_u32(buf, 6), bytes::read_u8(buf, 10)) {
                (Ok(op_code), Ok(cmd_seq), Ok(raw)) => match CmdResponse::from_repr(raw) {
                    Some(response) => Some(Message::CmdResponse { op_code, cmd_seq, response }),
                    None => None,
                },
                _ => None,
            }
        } else if msg_type == MSG_TYPE_PING_IN {
            match bytes::read_u32(buf, 2) {
                Ok(key) => Some(Message::Ping { key }),
                Err(_) => None,
            }
        } else if msg_type == MSG_TYPE_SEQ_RUN_IN {
            match bytes::read_string(buf, 2, FILE_NAME_STRING_SIZE) {
                Ok(name) => {
                    let start: usize = 4 + name.len();
                    if buf.len() - start < SeqArgs::SERIALIZED_SIZE {
                        None
                    } else {
                        let args: Vec<u8> = bytes::copy_range(
                            buf,
                            start,
                            start + SeqArgs::SERIALIZED_SIZE,
                        );
                        Some(Message::SeqRun { name, args })
                    }
                },
                Err(_) => None,
            }
        } else if msg_type == MSG_TYPE_SEQ_DISPATCH_IN {
            match bytes::read_string(buf, 2, FILE_NAME_STRING_SIZE) {
                Ok(name) => Some(Message::SeqDispatch { name }),
                Err(_) => None,
            }
        } else if msg_type == MSG_TYPE_SCHED_IN {
            match bytes::read_u32(buf, 2) {
                Ok(context) => Some(Message::Sched { context }),
                Err(_) => None,
            }
        } else if msg_type == MSG_TYPE_CMD_IN {
            match (
                bytes::read_u32(buf, 2),
                bytes::read_u32(buf, 6),
                bytes::read_string(buf, 10, CMD_ARG_BUFFER_MAX_SIZE),
            ) {
                (Ok(op_code), Ok(cmd_seq), Ok(args)) => Some(
                    Message::Cmd { op_code, cmd_seq, args },
                ),
                _ => None,
            }
        } else {
            None
        }
    }
}

impl Trace {
    /// A message is handled.
    pub open spec fn handle(
        self,
        m: Message<Seq<u8>>,
        outcome: LoadOutcome,
        now: Time,
        later: Time,
    ) -> Trace {
        match m {
            Message::SeqCancel => self.cancel_sequence(),
            Message::CmdResponse { op_code, cmd_seq, response } => self.cmd_response(
                op_code,
                response,
                now,
            ),
            Message::Ping { key } => self.emit(Action::Ping { key }),
            Message::SeqRun { name, .. } => self.port_run(name, outcome, now, later),
            Message::SeqDispatch { name } => self.port_run(name, outcome, now, later),
            Message::Sched { .. } => self.sched(now, later),
            Message::Cmd { op_code, cmd_seq, args } => self.command(
                op_code,
                cmd_seq,
                args,
                outcome,
                now,
                later,
            ),
        }
    }
}

/// The file that a message needs read, if any.
pub open spec fn message_file(state: SequencerState, m: Message<Seq<u8>>) -> Option<Seq<u8>> {
    match m {
        Message::SeqRun { name, .. } => model::port_file(state, name),
        Message::SeqDispatch { name } => model::port_file(state, name),
        Message::Cmd { op_code, args, .. } => model::command_file(state, op_code, args),
        _ => None,
    }
}

/// Whether a message can be handled: a file that it needs can be loaded, and the end of
/// a run that fails finds a listener.
pub open spec fn can_handle<S: Sequence>(
    state: SequencerState,
    m: Message<Seq<u8>>,
    inputs: Inputs<Seq<u8>>,
) -> bool {
    match m {
        Message::SeqRun { name, .. } => model::takes_port_run::<S>(state, name, inputs),
        Message::SeqDispatch { name } => model::takes_port_run::<S>(state, name, inputs),
        Message::Cmd { op_code, args, .. } => model::command_file(state, op_code, args) is Some
            ==> model::can_load::<S>(state, inputs),
        _ => true,
    }
}

impl<S: Sequence> CmdSequencer<S> {
    /// The file that has to be read for a queued message, if any.
    pub fn message_file(&self, msg_type: i32, buf: &[u8]) -> (r: Option<Vec<u8>>)
        ensures
            match (r, message_of(msg_type, buf@)) {
                (Some(name), Some(m)) => message_file(self@, m) == Some(name@),
                (None, Some(m)) => message_file(self@, m) is None,
                (Some(_), None) => false,
                (None, None) => true,
            },
    {
        match Message::decode(msg_type, buf) {
            Some(Message::SeqRun { name, .. }) => self.port_file(name.as_slice()),
            Some(Message::SeqDispatch { name }) => self.port_file(name.as_slice()),
            Some(Message::Cmd { op_code, args, .. }) => self.command_file(op_code, args.as_slice()),
            _ => None,
        }
    }

    /// Takes a queued message apart and handles it. A malformed message changes nothing.
    pub fn dispatch_message(
        &mut self,
        msg_type: i32,
        buf: &[u8],
        inputs: &Inputs<Vec<u8>>,
        out: &mut Vec<Action>,
    ) -> (r: MsgDispatchStatus)
        requires
            old(self).wf(),
            inputs.now.wf(),
            inputs.later.wf(),
            message_of(msg_type, buf@) is Some ==> can_handle::<S>(
                old(self)@,
                message_of(msg_type, buf@)->0,
                inputs@,
            ),
        ensures
            final(self).wf(),
            match message_of(msg_type, buf@) {
                Some(m) => {
                    &&& r == MsgDispatchStatus::OK
                    &&& component::trace(*final(self), final(out)@) == component::trace(
                        *old(self),
                        old(out)@,
                    ).handle(
                        m,
                        model::outcome_of::<S>(old(self)@, inputs@),
                        inputs.now,
                        inputs.later,
                    )
                },
                None => {
                    &&& r == MsgDispatchStatus::Error
                    &&& *final(self) == *old(self)
                    &&& final(out)@ == old(out)@
                },
            },
    {
        match Message::decode(msg_type, buf) {
            None => MsgDispatchStatus::Error,
            Some(m) => {
                match m {
                    Message::SeqCancel => self.seq_cancel_in(out),
                    Message::CmdResponse { op_code, cmd_seq, response } => self.cmd_response_in(
                        op_code,
                        cmd_seq,
                        response,
                        &inputs.now,
                        out,
                    ),
                    Message::Ping { key } => self.ping_in(key, out),
                    Message::SeqRun { name, .. } => self.seq_run_in(name.as_slice(), inputs, out),
                    Message::SeqDispatch { name } => self.seq_dispatch_in(
                        name.as_slice(),
                        inputs,
                        out,
                    ),
                    Message::Sched { .. } => self.sched_in(&inputs.now, &inputs.later, out),
                    Message::Cmd { op_code, cmd_seq, args } => self.cmd_in(
                        op_code,
                        cmd_seq,
                        args.as_slice(),
                        inputs,
                        out,
                    ),
                }
                MsgDispatchStatus::OK
            },
        }
    }
}

impl CmdSequencer<FPrimeSequence> {
    /// Whether a message can be handled, given what it needs of the surroundings.
    pub fn takes_message(&self, m: &Message, inputs: &Inputs<Vec<u8>>) -> (r: bool)
        requires
            self.wf(),
        ensures
            r == can_handle::<FPrimeSequence>(self@, m@, inputs@),
    {
        match m {
            Message::SeqRun { name, .. } => self.takes_port_run(name.as_slice(), inputs),
            Message::SeqDispatch { name } => self.takes_port_run(name.as_slice(), inputs),
            Message::Cmd { op_code, args, .. } => match self.command_file(
                *op_code,
                args.as_slice(),
            ) {
                Some(_) => self.sequence().capacity() > 0 && self.accepts_tags(
                    &inputs.file,
                    &inputs.now,
                ),
                None => true,
            },
            _ => true,
        }
    }
}

/// A file name behind the port reads back, and what follows stands behind it.
proof fn lemma_name_reads_back(port: Seq<u8>, name: Seq<u8>, rest: Seq<u8>)
    requires
        port.len() == 2,
        name.len() <= FILE_NAME_STRING_SIZE,
    ensures
        ({
            let buf = port + (bytes::be_string(name) + rest);
            let start = 4 + name.len() as int;
            &&& bytes::string_read(buf, 2, FILE_NAME_STRING_SIZE as int) == Ok::<
                Seq<u8>,
                bytes::SerializeStatus,
            >(name)
            &&& buf.len() == start + rest.len()
            &&& buf.subrange(start, start + rest.len()) == rest
        }),
{
    let buf = port + (bytes::be_string(name) + rest);
    let start = 4 + name.len() as int;
    bytes::lemma_join(port, bytes::be_string(name), rest);
    bytes::law_string_round_trip(port, name, rest, FILE_NAME_STRING_SIZE as int);
    assert(buf.subrange(start, start + rest.len()) =~= rest);
}

/// A response behind the port reads back.
proof fn lemma_response_reads_back(
    port: Seq<u8>,
    op_code: u32,
    cmd_seq: u32,
    response: CmdResponse,
)
    requires
        port.len() == 2,
    ensures
        ({
            let buf = port + (bytes::be32(op_code) + bytes::be32(cmd_seq) + seq![response.code()]);
            &&& bytes::u32_read(buf, 2) == Ok::<u32, bytes::SerializeStatus>(op_code)
            &&& bytes::u32_read(buf, 6) == Ok::<u32, bytes::SerializeStatus>(cmd_seq)
            &&& bytes::u8_read(buf, 10) == Ok::<u8, bytes::SerializeStatus>(response.code())
        }),
{
    let rest = seq![response.code()];
    let buf = port + (bytes::be32(op_code) + bytes::be32(cmd_seq) + rest);
    envelope::lemma_opcode_reads_back(port, op_code, cmd_seq, rest);
    assert(buf[10] == response.code());
}

/// A message that fits comes out of the queue as it was put in.
pub proof fn law_message_round_trip(m: Message<Seq<u8>>, port: i16)
    requires
        m.fits(),
    ensures
        m.wire(port).take(4) == bytes::be32(bytes::bits32(m.type_code())),
        message_of(m.type_code(), m.wire(port).skip(4)) == Some(m),
{
    let p = bytes::be16(bytes::bits16(port));
    let buf = m.wire(port).skip(4);
    envelope::lemma_header_reads_back(m.type_code(), port, m.content_wire());
    assert(message_of(m.type_code(), buf) == Some(m)) by {
        match m {
            Message::SeqCancel => {},
            Message::CmdResponse { op_code, cmd_seq, response } => {
                lemma_response_reads_back(p, op_code, cmd_seq, response);
                types::law_cmd_response_round_trip(response, 0);
            },
            Message::Ping { key } => {
                envelope::lemma_u32_reads_back(p, key);
            },
            Message::SeqRun { name, args } => {
                lemma_name_reads_back(p, name, args);
            },
            Message::SeqDispatch { name } => {
                lemma_name_reads_back(p, name, Seq::empty());
                bytes::lemma_join(p, bytes::be_string(name), Seq::empty());
            },
            Message::Sched { context } => {
                envelope::lemma_u32_reads_back(p, context);
            },
            Message::Cmd { op_code, cmd_seq, args } => {
                envelope::lemma_command_reads_back(p, op_code, cmd_seq, args);
            },
        }
    }
}

/// What the bytes of each type of message say behind the port, which takes two bytes: numbers
/// with their most significant byte first, and strings behind their length. Too few bytes, a
/// string that is too long, an unknown response and any other type make no message.
pub proof fn law_what_messages_say(buf: Seq<u8>, other: i32)
    ensures
        message_of(1, buf) == if buf.len() >= 2 {
            Some(Message::<Seq<u8>>::SeqCancel)
        } else {
            None
        },
        ({
            let response = CmdResponse::of_code(buf[10]);
            message_of(2, buf) == if buf.len() >= 11 && response is Some {
                Some(
                    Message::<Seq<u8>>::CmdResponse {
                        op_code: bytes::sum_of_four(buf, 2) as u32,
                        cmd_seq: bytes::sum_of_four(buf, 6) as u32,
                        response: response->0,
                    },
                )
            } else {
                None
            }
        }),
        message_of(3, buf) == if buf.len() >= 6 {
            Some(Message::<Seq<u8>>::Ping { key: bytes::sum_of_four(buf, 2) as u32 })
        } else {
            None
        },
        ({
            let length = bytes::sum_of_two(buf, 2);
            let named = buf.len() >= 4 && length <= 240 && buf.len() >= 4 + length;
            &&& message_of(4, buf) == if named && buf.len() >= 4 + length + 263 {
                Some(
                    Message::<Seq<u8>>::SeqRun {
                        name: buf.subrange(4, 4 + length),
                        args: buf.subrange(4 + length, 4 + length + 263),
                    },
                )
            } else {
                None
            }
            &&& message_of(5, buf) == if named {
                Some(Message::<Seq<u8>>::SeqDispatch { name: buf.subrange(4, 4 + length) })
            } else {
                None
            }
        }),
        message_of(6, buf) == if buf.len() >= 6 {
            Some(Message::<Seq<u8>>::Sched { context: bytes::sum_of_four(buf, 2) as u32 })
        } else {
            None
        },
        ({
            let length = bytes::sum_of_two(buf, 10);
            message_of(7, buf) == if buf.len() >= 12 && length <= 506 && buf.len() >= 12 + length {
                Some(
                    Message::<Seq<u8>>::Cmd {
                        op_code: bytes::sum_of_four(buf, 2) as u32,
                        cmd_seq: bytes::sum_of_four(buf, 6) as u32,
                        args: buf.subrange(12, 12 + length),
                    },
                )
            } else {
                None
            }
        }),
        other < 1 || other > 7 ==> message_of(other, buf) is None,
{
    bytes::law_numbers_read(buf, 0);
    bytes::law_numbers_read(buf, 2);
    bytes::law_numbers_read(buf, 6);
    bytes::law_numbers_read(buf, 10);
    bytes::law_strings_read(buf, 2, 240);
    bytes::law_strings_read(buf, 10, 506);
}

/// A message takes six bytes for its type and the port, and just as many more as what it says
/// needs.
pub proof fn law_message_sizes(m: Message<Seq<u8>>, port: i16)
    ensures
        m.wire(port).len() == 6 + match m {
            Message::SeqCancel => 0,
            Message::CmdResponse { .. } => 9,
            Message::Ping { .. } => 4,
            Message::SeqRun { name, args } => 2 + name.len() + args.len(),
            Message::SeqDispatch { name } => 2 + name.len(),
            Message::Sched { .. } => 4,
            Message::Cmd { args, .. } => 10 + args.len(),
        },
{
}

} // verus!
