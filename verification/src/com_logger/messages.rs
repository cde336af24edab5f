//! Queued messages: putting them together, taking them apart, and handing them to the
//! logger.
use vstd::prelude::*;

use super::component;
use super::component::ComLogger;
use super::dictionary::Action;
use super::model::{LoggerState, Trace};
use crate::fw::bytes;
use crate::fw::envelope;
use crate::fw::envelope::{CMD_ARG_BUFFER_MAX_SIZE, COM_BUFFER_MAX_SIZE};
use crate::fw::time::Time;
use crate::fw::types::MsgDispatchStatus;

verus! {

broadcast use crate::fw::bytes::lemma_be32_len;

/// Message type of a packet.
pub const MSG_TYPE_COM_IN: i32 = 1;

/// Message type of a ping.
pub const MSG_TYPE_PING_IN: i32 = 2;

/// Message type of a command.
pub const MSG_TYPE_CMD_IN: i32 = 3;

/// How large a queued message can be: type and port, and a packet with its length and its
/// context.
pub const QUEUE_MSG_SIZE: usize = 524;

/// What a message says. `B` holds bytes: a `Vec<u8>` in memory, a `Seq<u8>` in contracts.
#[derive(Debug)]
pub enum Content<B = Vec<u8>> {
    /// A packet.
    Com { data: B, context: u32 },
    /// A ping.
    Ping { key: u32 },
    /// A command.
    Cmd { op_code: u32, cmd_seq: u32, args: B },
}

/// A queued message.
#[derive(Debug)]
pub struct Message<B = Vec<u8>> {
    /// The port that it came in at.
    pub port: i16,
    /// What it says.
    pub content: Content<B>,
}

impl View for Content<Vec<u8>> {
    type V = Content<Seq<u8>>;

    open spec fn view(&self) -> Content<Seq<u8>> {
        match self {
            Content::Com { data, context } => Content::Com { data: data@, context: *context },
            Content::Ping { key } => Content::Ping { key: *key },
            Content::Cmd { op_code, cmd_seq, args } => Content::Cmd {
                op_code: *op_code,
                cmd_seq: *cmd_seq,
                args: args@,
            },
        }
    }
}

impl View for Message<Vec<u8>> {
    type V = Message<Seq<u8>>;

    open spec fn view(&self) -> Message<Seq<u8>> {
        Message { port: self.port, content: self.content@ }
    }
}

impl Message<Seq<u8>> {
    /// The type of the message.
    pub open spec fn type_code(self) -> i32 {
        match self.content {
            Content::Com { .. } => MSG_TYPE_COM_IN,
            Content::Ping { .. } => MSG_TYPE_PING_IN,
            Content::Cmd { .. } => MSG_TYPE_CMD_IN,
        }
    }

    /// Whether the message fits where it is queued.
    pub open spec fn fits(self) -> bool {
        match self.content {
            Content::Com { data, .. } => data.len() <= COM_BUFFER_MAX_SIZE,
            Content::Ping { .. } => true,
            Content::Cmd { args, .. } => args.len() <= CMD_ARG_BUFFER_MAX_SIZE,
        }
    }

    /// What the message says, on the wire.
    pub open spec fn content_wire(self) -> Seq<u8> {
        match self.content {
            Content::Com { data, context } => envelope::packet_wire(data, context),
            Content::Ping { key } => bytes::be32(key),
            Content::Cmd { op_code, cmd_seq, args } => envelope::command_wire(
                op_code,
                cmd_seq,
                args,
            ),
        }
    }

    /// The message on the wire: its type, the port, and what it says.
    pub open spec fn wire(self) -> Seq<u8> {
        envelope::header(self.type_code(), self.port) + self.content_wire()
    }
}

/// What the bytes of a message of type `msg_type` say after the port number, if anything.
pub open spec fn content_of(msg_type: i32, buf: Seq<u8>) -> Option<Content<Seq<u8>>> {
    if msg_type == MSG_TYPE_COM_IN {
        match bytes::string_read(buf, 2, COM_BUFFER_MAX_SIZE as int) {
            Ok(data) => match bytes::u32_read(buf, 4 + data.len() as int) {
                Ok(context) => Some(Content::Com { data, context }),
                Err(_) => None,
            },
            Err(_) => None,
        }
    } else if msg_type == MSG_TYPE_PING_IN {
        match bytes::u32_read(buf, 2) {
            Ok(key) => Some(Content::Ping { key }),
            Err(_) => None,
        }
    } else if msg_type == MSG_TYPE_CMD_IN {
        match (
            bytes::u32_read(buf, 2),
            bytes::u32_read(buf, 6),
            bytes::string_read(buf, 10, CMD_ARG_BUFFER_MAX_SIZE as int),
        ) {
            (Ok(op_code), Ok(cmd_seq), Ok(args)) => Some(Content::Cmd { op_code, cmd_seq, args }),
            _ => None,
        }
    } else {
        None
    }
}

/// The message of type `msg_type` that `buf` holds, if it does.
pub open spec fn message_of(msg_type: i32, buf: Seq<u8>) -> Option<Message<Seq<u8>>> {
    match (bytes::u16_read(buf, 0), content_of(msg_type, buf)) {
        (Ok(port), Some(content)) => Some(Message { port: bytes::signed16(port), content }),
        _ => None,
    }
}

impl Message<Vec<u8>> {
    /// Puts a message together: its type, the port, and what it says.
    pub fn encode(&self) -> (r: Vec<u8>)
        requires
            self@.fits(),
        ensures
            r@ == self@.wire(),
    {
        let mut out: Vec<u8> = Vec::new();
        match &self.content {
            Content::Com { data, context } => {
                envelope::push_header(&mut out, MSG_TYPE_COM_IN, self.port);
                envelope::push_packet(&mut out, data.as_slice(), *context);
            },
            Content::Ping { key } => {
                envelope::push_header(&mut out, MSG_TYPE_PING_IN, self.port);
                bytes::push_u32(&mut out, *key);
            },
            Content::Cmd { op_code, cmd_seq, args } => {
                envelope::push_header(&mut out, MSG_TYPE_CMD_IN, self.port);
                envelope::push_command(&mut out, *op_code, *cmd_seq, args.as_slice());
            },
        }
        assert(out@ =~= self@.wire());
        out
    }

    /// Takes a message apart.
    pub fn decode(msg_type: i32, buf: &[u8]) -> (r: Option<Self>)
        ensures
            match r {
                Some(m) => message_of(msg_type, buf@) == Some(m@),
                None => message_of(msg_type, buf@) is None,
            },
    {
        let port: i16 = match bytes::read_u16(buf, 0) {
            Ok(port) => bytes::to_signed16(port),
            Err(_) => {
                return None;
            },
        };
        let content = if msg_type == MSG_TYPE_COM_IN {
            match bytes::read_string(buf, 2, COM_BUFFER_MAX_SIZE) {
                Ok(data) => match bytes::read_u32(buf, 4 + data.len()) {
                    Ok(context) => Content::Com { data, context },
                    Err(_) => {
                        return None;
                    },
                },
                Err(_) => {
                    return None;
                },
            }
        } else if msg_type == MSG_TYPE_PING_IN {
            match bytes::read_u32(buf, 2) {
                Ok(key) => Content::Ping { key },
                Err(_) => {
                    return None;
                },
            }
        } else if msg_type == MSG_TYPE_CMD_IN {
            match (
                bytes::read_u32(buf, 2),
                bytes::read_u32(buf, 6),
                bytes::read_string(buf, 10, CMD_ARG_BUFFER_MAX_SIZE),
            ) {
                (Ok(op_code), Ok(cmd_seq), Ok(args)) => Content::Cmd { op_code, cmd_seq, args },
                _ => {
                    return None;
                },
            }
        } else {
            return None;
        };
        Some(Message { port, content })
    }
}

impl Trace {
    /// A message is handled, at the time that the clock shows.
    pub open spec fn handle(self, m: Message<Seq<u8>>, now: Time) -> Trace {
        match m.content {
            Content::Com { data, .. } => self.com_in(data, now),
            Content::Ping { key } => self.ping(key),
            Content::Cmd { op_code, cmd_seq, args } => self.command(op_code, cmd_seq, args),
        }
    }
}

impl LoggerState {
    /// Whether a message can be handled.
    pub open spec fn takes_message(self, m: Message<Seq<u8>>, now: Time) -> bool {
        match m.content {
            Content::Com { .. } => m.port == 0 && (self.open || self.name_fits(now)),
            _ => true,
        }
    }
}

impl ComLogger {
    /// Whether a message can be handled.
    pub fn takes_message(&self, m: &Message, now: &Time) -> (r: bool)
        ensures
            r == self@.takes_message(m@, *now),
    {
        match &m.content {
            Content::Com { .. } => m.port == 0 && (self.is_file_open() || self.name_fits(now)),
            _ => true,
        }
    }

    /// Takes a queued message apart and handles it. A malformed message changes nothing.
    pub fn dispatch_message(
        &mut self,
        msg_type: i32,
        buf: &[u8],
        now: &Time,
        out: &mut Vec<Action>,
    ) -> (r: MsgDispatchStatus)
        requires
            old(self).wf(),
            old(self)@.task is Idle,
            message_of(msg_type, buf@) is Some ==> old(self)@.takes_message(
                message_of(msg_type, buf@)->0,
                *now,
            ),
        ensures
            final(self).wf(),
            match message_of(msg_type, buf@) {
                Some(m) => {
                    &&& r == MsgDispatchStatus::OK
                    &&& component::trace(*final(self), final(out)@) == component::trace(
                        *old(self),
                        old(out)@,
                    ).handle(m, *now)
                },
                None => {
                    &&& r == MsgDispatchStatus::Error
                    &&& *final(self) == *old(self)
                    &&& final(out)@ == old(out)@
                },
            },
    {
        match Message::decode(msg_type, buf) {
            None => MsgDispatchStatus::Error,
            Some(m) => {
                match m.content {
                    Content::Com { data, .. } => self.com_in(data.as_slice(), now, out),
                    Content::Ping { key } => self.ping_in(key, out),
                    Content::Cmd { op_code, cmd_seq, args } => self.cmd_in(
                        op_code,
                        cmd_seq,
                        args.as_slice(),
                        out,
                    ),
                }
                MsgDispatchStatus::OK
            },
        }
    }
}

/// A message that fits comes out of the queue as it was put in.
pub proof fn law_message_round_trip(m: Message<Seq<u8>>)
    requires
        m.fits(),
    ensures
        m.wire().take(4) == bytes::be32(bytes::bits32(m.type_code())),
        message_of(m.type_code(), m.wire().skip(4)) == Some(m),
{
    let port = bytes::be16(bytes::bits16(m.port));
    let buf = m.wire().skip(4);
    envelope::lemma_header_reads_back(m.type_code(), m.port, m.content_wire());
    assert(content_of(m.type_code(), buf) == Some(m.content)) by {
        match m.content {
            Content::Com { data, context } => {
                envelope::lemma_packet_reads_back(port, data, context);
            },
            Content::Ping { key } => {
                envelope::lemma_u32_reads_back(port, key);
            },
            Content::Cmd { op_code, cmd_seq, args } => {
                envelope::lemma_command_reads_back(port, op_code, cmd_seq, args);
            },
        }
    }
}

/// What the bytes of each type of message say: the port in the first two, and behind it what
/// goes with the type, numbers with their most significant byte first and strings behind their
/// length. Too few bytes, a string that is too long and any other type make no message.
pub proof fn law_what_messages_say(buf: Seq<u8>, other: i32)
    ensures
        ({
            let length = bytes::sum_of_two(buf, 2);
            message_of(1, buf) == if buf.len() >= 4 && length <= 512 && buf.len() >= 8 + length {
                Some(
                    Message::<Seq<u8>> {
                        port: bytes::signed16(bytes::sum_of_two(buf, 0) as u16),
                        content: Content::Com {
                            data: buf.subrange(4, 4 + length),
                            context: bytes::sum_of_four(buf, 4 + length) as u32,
                        },
                    },
                )
            } else {
                None
            }
        }),
        message_of(2, buf) == if buf.len() >= 6 {
            Some(
                Message::<Seq<u8>> {
                    port: bytes::signed16(bytes::sum_of_two(buf, 0) as u16),
                    content: Content::Ping { key: bytes::sum_of_four(buf, 2) as u32 },
                },
            )
        } else {
            None
        },
        ({
            let length = bytes::sum_of_two(buf, 10);
            message_of(3, buf) == if buf.len() >= 12 && length <= 506 && buf.len() >= 12 + length {
                Some(
                    Message::<Seq<u8>> {
                        port: bytes::signed16(bytes::sum_of_two(buf, 0) as u16),
                        content: Content::Cmd {
                            op_code: bytes::sum_of_four(buf, 2) as u32,
                            cmd_seq: bytes::sum_of_four(buf, 6) as u32,
                            args: buf.subrange(12, 12 + length),
                        },
                    },
                )
            } else {
                None
            }
        }),
        other < 1 || other > 3 ==> message_of(other, buf) is None,
{
    bytes::law_numbers_read(buf, 0);
    bytes::law_numbers_read(buf, 2);
    bytes::law_numbers_read(buf, 6);
    bytes::law_numbers_read(buf, 10);
    bytes::law_strings_read(buf, 2, 512);
    bytes::law_strings_read(buf, 10, 506);
    bytes::law_numbers_read(buf, 4 + bytes::sum_of_two(buf, 2));
}

/// A message takes six bytes for its type and the port, and just as many more as what it says
/// needs.
pub proof fn law_message_sizes(m: Message<Seq<u8>>)
    ensures
        m.wire().len() == 6 + match m.content {
            Content::Com { data, .. } => 2 + data.len() + 4,
            Content::Ping { .. } => 4,
            Content::Cmd { args, .. } => 10 + args.len(),
        },
{
}

} // verus!
