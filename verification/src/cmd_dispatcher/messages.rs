//! Queued messages: putting them together, taking them apart, and handing them to the
//! dispatcher.
use vstd::prelude::*;

use super::component;
use super::component::CmdDispatcher;
use super::dictionary::{Action, SEQUENCE_PORTS};
use super::model::{DispatcherState, Trace};
use crate::fw::bytes;
use crate::fw::envelope;
use crate::fw::envelope::{CMD_ARG_BUFFER_MAX_SIZE, COM_BUFFER_MAX_SIZE};
use crate::fw::types;
use crate::fw::types::{CmdResponse, MsgDispatchStatus};

verus! {

broadcast use crate::fw::bytes::lemma_be32_len;

/// Message type of a component's answer.
pub const MSG_TYPE_COMP_CMD_STAT: i32 = 1;

/// Message type of a command packet.
pub const MSG_TYPE_SEQ_CMD_BUFF: i32 = 2;

/// Message type of a ping.
pub const MSG_TYPE_PING_IN: i32 = 3;

/// Message type of a tick of the scheduler.
pub const MSG_TYPE_RUN: i32 = 4;

/// Message type of a command to the dispatcher itself.
pub const MSG_TYPE_CMD: i32 = 5;

/// How large a queued message can be: type and port, and a packet with its length and its
/// context.
pub const QUEUE_MSG_SIZE: usize = 524;

/// What a message says. `B` holds bytes: a `Vec<u8>` in memory, a `Seq<u8>` in contracts.
#[derive(Debug)]
pub enum Content<B = Vec<u8>> {
    /// A component's answer.
    CompCmdStat { op_code: u32, cmd_seq: u32, response: CmdResponse },
    /// A command packet.
    SeqCmdBuff { data: B, context: u32 },
    /// A ping.
    Ping { key: u32 },
    /// A tick of the scheduler.
    Run { context: u32 },
    /// A command to the dispatcher itself.
    Cmd { op_code: u32, cmd_seq: u32, args: B },
}

/// A queued message.
#[derive(Debug)]
pub struct Message<B = Vec<u8>> {
    /// The port that it came in at.
    pub port: i16,
    /// What it says.
    pub content: Content<B>,
}

impl View for Content<Vec<u8>> {
    type V = Content<Seq<u8>>;

    open spec fn view(&self) -> Content<Seq<u8>> {
        match self {
            Content::CompCmdStat { op_code, cmd_seq, response } => Content::CompCmdStat {
                op_code: *op_code,
                cmd_seq: *cmd_seq,
                response: *response,
            },
            Content::SeqCmdBuff { data, context } => Content::SeqCmdBuff {
                data: data@,
                context: *context,
            },
            Content::Ping { key } => Content::Ping { key: *key },
            Content::Run { context } => Content::Run { context: *context },
            Content::Cmd { op_code, cmd_seq, args } => Content::Cmd {
                op_code: *op_code,
                cmd_seq: *cmd_seq,
                args: args@,
            },
        }
    }
}

impl View for Message<Vec<u8>> {
    type V = Message<Seq<u8>>;

    open spec fn view(&self) -> Message<Seq<u8>> {
        Message { port: self.port, content: self.content@ }
    }
}

impl Message<Seq<u8>> {
    /// The type of the message.
    pub open spec fn type_code(self) -> i32 {
        match self.content {
            Content::CompCmdStat { .. } => MSG_TYPE_COMP_CMD_STAT,
            Content::SeqCmdBuff { .. } => MSG_TYPE_SEQ_CMD_BUFF,
            Content::Ping { .. } => MSG_TYPE_PING_IN,
            Content::Run { .. } => MSG_TYPE_RUN,
            Content::Cmd { .. } => MSG_TYPE_CMD,
        }
    }

    /// Whether the message fits where it is queued.
    pub open spec fn fits(self) -> bool {
        match self.content {
            Content::SeqCmdBuff { data, .. } => data.len() <= COM_BUFFER_MAX_SIZE,
            Content::Cmd { args, .. } => args.len() <= CMD_ARG_BUFFER_MAX_SIZE,
            _ => true,
        }
    }

    /// What the message says, on the wire.
    pub open spec fn content_wire(self) -> Seq<u8> {
        match self.content {
            Content::CompCmdStat { op_code, cmd_seq, response } => bytes::be32(op_code)
                + bytes::be32(cmd_seq) + seq![response.code()],
            Content::SeqCmdBuff { data, context } => envelope::packet_wire(data, context),
            Content::Ping { key } => bytes::be32(key),
            Content::Run { context } => bytes::be32(context),
            Content::Cmd { op_code, cmd_seq, args } => envelope::command_wire(
                op_code,
                cmd_seq,
                args,
            ),
        }
    }

    /// The message on the wire: its type, the port, and what it says.
    pub open spec fn wire(self) -> Seq<u8> {
        envelope::header(self.type_code(), self.port) + self.content_wire()
    }
}

/// What the bytes of a message of type `msg_type` say after the port number, if anything.
pub open spec fn content_of(msg_type: i32, buf: Seq<u8>) -> Option<Content<Seq<u8>>> {
    if msg_type == MSG_TYPE_COMP_CMD_STAT {
        match (bytes::u32_read(buf, 2), bytes::u32_read(buf, 6), bytes::u8_read(buf, 10)) {
            (Ok(op_code), Ok(cmd_seq), Ok(raw)) => match CmdResponse::of_code(raw) {
                Some(response) => Some(Content::CompCmdStat { op_code, cmd_seq, response }),
                None => None,
            },
            _ => None,
        }
    } else if msg_type == MSG_TYPE_SEQ_CMD_BUFF {
        match bytes::string_read(buf, 2, COM_BUFFER_MAX_SIZE as int) {
            Ok(data) => match bytes::u32_read(buf, 4 + data.len() as int) {
                Ok(context) => Some(Content::SeqCmdBuff { data, context }),
                Err(_) => None,
            },
            Err(_) => None,
        }
    } else if msg_type == MSG_TYPE_PING_IN {
        match bytes::u32_read(buf, 2) {
            Ok(key) => Some(Content::Ping { key }),
            Err(_) => None,
        }
    } else if msg_type == MSG_TYPE_RUN {
        match bytes::u32_read(buf, 2) {
            Ok(context) => Some(Content::Run { context }),
            Err(_) => None,
        }
    } else if msg_type == MSG_TYPE_CMD {
        match (
            bytes::u32_read(buf, 2),
            bytes::u32_read(buf, 6),
            bytes::string_read(buf, 10, CMD_ARG_BUFFER_MAX_SIZE as int),
        ) {
            (Ok(op_code), Ok(cmd_seq), Ok(args)) => Some(Content::Cmd { op_code, cmd_seq, args }),
            _ => None,
        }
    } else {
        None
    }
}

/// The message of type `msg_type` that `buf` holds, if it does.
pub open spec fn message_of(msg_type: i32, buf: Seq<u8>) -> Option<Message<Seq<u8>>> {
    match (bytes::u16_read(buf, 0), content_of(msg_type, buf)) {
        (Ok(port), Some(content)) => Some(Message { port: bytes::signed16(port), content }),
        _ => None,
    }
}

/// Whether a message that says it is a command packet names a port that exists, whatever
/// else it holds.
pub open spec fn port_exists(msg_type: i32, buf: Seq<u8>) -> bool {
    msg_type == MSG_TYPE_SEQ_CMD_BUFF && bytes::u16_read(buf, 0) is Ok ==> 0 <= bytes::signed16(
        bytes::u16_read(buf, 0)->Ok_0,
    ) < SEQUENCE_PORTS
}

impl Message<Vec<u8>> {
    /// Puts a message together: its type, the port, and what it says.
    pub fn encode(&self) -> (r: Vec<u8>)
        requires
            self@.fits(),
        ensures
            r@ == self@.wire(),
    {
        let mut out: Vec<u8> = Vec::new();
        let msg_type: i32 = match &self.content {
            Content::CompCmdStat { .. } => MSG_TYPE_COMP_CMD_STAT,
            Content::SeqCmdBuff { .. } => MSG_TYPE_SEQ_CMD_BUFF,
            Content::Ping { .. } => MSG_TYPE_PING_IN,
            Content::Run { .. } => MSG_TYPE_RUN,
            Content::Cmd { .. } => MSG_TYPE_CMD,
        };
        envelope::push_header(&mut out, msg_type, self.port);
        match &self.content {
            Content::CompCmdStat { op_code, cmd_seq, response } => {
                bytes::push_u32(&mut out, *op_code);
                bytes::push_u32(&mut out, *cmd_seq);
                bytes::push_u8(&mut out, response.as_repr());
            },
            Content::SeqCmdBuff { data, context } => {
                envelope::push_packet(&mut out, data.as_slice(), *context);
            },
            Content::Ping { key } => {
                bytes::push_u32(&mut out, *key);
            },
            Content::Run { context } => {
                bytes::push_u32(&mut out, *context);
            },
            Content::Cmd { op_code, cmd_seq, args } => {
                envelope::push_command(&mut out, *op_code, *cmd_seq, args.as_slice());
            },
        }
        assert(out@ =~= self@.wire());
        out
    }

    /// Takes a message apart.
    pub fn decode(msg_type: i32, buf: &[u8]) -> (r: Option<Self>)
        ensures
            match r {
                Some(m) => message_of(msg_type, buf@) == Some(m@),
                None => message_of(msg_type, buf@) is None,
            },
    {
        let port: i16 = match bytes::read_u16(buf, 0) {
            Ok(port) => bytes::to_signed16(port),
            Err(_) => {
                return None;
            },
        };
        let content = if msg_type == MSG_TYPE_COMP_CMD_STAT {
            match (bytes::read_u32(buf, 2), bytes::read_u32(buf, 6), bytes::read_u8(buf, 10)) {
                (Ok(op_code), Ok(cmd_seq), Ok(raw)) => match CmdResponse::from_repr(raw) {
                    Some(response) => Content::CompCmdStat { op_code, cmd_seq, response },
                    None => {
                        return None;
                    },
                },
                _ => {
                    return None;
                },
            }
        } else if msg_type == MSG_TYPE_SEQ_CMD_BUFF {
            match bytes::read_string(buf, 2, COM_BUFFER_MAX_SIZE) {
                Ok(data) => match bytes::read_u32(buf, 4 + data.len()) {
                    Ok(context) => Content::SeqCmdBuff { data, context },
                    Err(_) => {
                        return None;
                    },
                },
                Err(_) => {
                    return None;
                },
            }
        } else if msg_type == MSG_TYPE_PING_IN {
            match bytes::read_u32(buf, 2) {
                Ok(key) => Content::Ping { key },
                Err(_) => {
                    return None;
                },
            }
        } else if msg_type == MSG_TYPE_RUN {
            match bytes::read_u32(buf, 2) {
                Ok(context) => Content::Run { context },
                Err(_) => {
                    return None;
                },
            }
        } else if msg_type == MSG_TYPE_CMD {
            match (
                bytes::read_u32(buf, 2),
                bytes::read_u32(buf, 6),
                bytes::read_string(buf, 10, CMD_ARG_BUFFER_MAX_SIZE),
            ) {
                (Ok(op_code), Ok(cmd_seq), Ok(args)) => Content::Cmd { op_code, cmd_seq, args },
                _ => {
                    return None;
                },
            }
        } else {
            return None;
        };
        Some(Message { port, content })
    }
}

impl Trace {
    /// A message is handled.
    pub open spec fn handle(self, m: Message<Seq<u8>>) -> Trace {
        match m.content {
            Content::CompCmdStat { op_code, cmd_seq, response } => self.response_in(
                op_code,
                cmd_seq,
                response,
            ),
            Content::SeqCmdBuff { data, context } => self.packet_in(m.port, data, context),
            Content::Ping { key } => self.emit(Action::PingOut { key }),
            Content::Run { .. } => self.run(),
            Content::Cmd { op_code, cmd_seq, args } => self.own_command(op_code, cmd_seq, args),
        }
    }
}

impl DispatcherState {
    /// Whether a message can be handled.
    pub open spec fn takes_message(self, m: Message<Seq<u8>>) -> bool {
        match m.content {
            Content::CompCmdStat { op_code, cmd_seq, .. } => self.takes_response(op_code, cmd_seq),
            Content::SeqCmdBuff { data, .. } => self.takes_packet(m.port as int, data),
            _ => true,
        }
    }
}

impl CmdDispatcher {
    /// Whether a message can be handled.
    pub fn takes_message(&self, m: &Message) -> (r: bool)
        ensures
            r == self@.takes_message(m@),
    {
        match &m.content {
            Content::CompCmdStat { op_code, cmd_seq, .. } => self.takes_response(
                *op_code,
                *cmd_seq,
            ),
            Content::SeqCmdBuff { data, .. } => self.takes_packet(m.port, data),
            _ => true,
        }
    }

    /// Takes a queued message apart and handles it. A malformed message changes nothing.
    pub fn dispatch_message(
        &mut self,
        msg_type: i32,
        buf: &[u8],
        out: &mut Vec<Action>,
    ) -> (r: MsgDispatchStatus)
        requires
            old(self).wf(),
            port_exists(msg_type, buf@),
            message_of(msg_type, buf@) is Some ==> old(self)@.takes_message(
                message_of(msg_type, buf@)->0,
            ),
        ensures
            final(self).wf(),
            match message_of(msg_type, buf@) {
                Some(m) => {
                    &&& r == MsgDispatchStatus::OK
                    &&& component::trace(*final(self), final(out)@) == component::trace(
                        *old(self),
                        old(out)@,
                    ).handle(m)
                },
                None => {
                    &&& r == MsgDispatchStatus::Error
                    &&& *final(self) == *old(self)
                    &&& final(out)@ == old(out)@
                },
            },
    {
        match Message::decode(msg_type, buf) {
            None => MsgDispatchStatus::Error,
            Some(m) => {
                match m.content {
                    Content::CompCmdStat { op_code, cmd_seq, response } => self.comp_cmd_stat_in(
                        op_code,
                        cmd_seq,
                        response,
                        out,
                    ),
                    Content::SeqCmdBuff { data, context } => self.seq_cmd_buff_in(
                        m.port,
                        data.as_slice(),
                        context,
                        out,
                    ),
                    Content::Ping { key } => self.ping_in(key, out),
                    Content::Run { .. } => self.run_in(out),
                    Content::Cmd { op_code, cmd_seq, args } => self.cmd_in(
                        op_code,
                        cmd_seq,
                        args.as_slice(),
                        out,
                    ),
                }
                MsgDispatchStatus::OK
            },
        }
    }
}

/// A component's answer comes out as it was put in.
proof fn lemma_answer_round_trip(
    port: Seq<u8>,
    op_code: u32,
    cmd_seq: u32,
    response: CmdResponse,
)
    requires
        port.len() == 2,
    ensures
        content_of(
            MSG_TYPE_COMP_CMD_STAT,
            port + (bytes::be32(op_code) + bytes::be32(cmd_seq) + seq![response.code()]),
        ) == Some(Content::<Seq<u8>>::CompCmdStat { op_code, cmd_seq, response }),
{
    let rest = seq![response.code()];
    let buf = port + (bytes::be32(op_code) + bytes::be32(cmd_seq) + rest);
    envelope::lemma_opcode_reads_back(port, op_code, cmd_seq, rest);
    assert(buf[10] == response.code());
    types::law_cmd_response_round_trip(response, 0);
}

/// A message that fits comes out of the queue as it was put in.
pub proof fn law_message_round_trip(m: Message<Seq<u8>>)
    requires
        m.fits(),
    ensures
        m.wire().take(4) == bytes::be32(bytes::bits32(m.type_code())),
        message_of(m.type_code(), m.wire().skip(4)) == Some(m),
{
    let port = bytes::be16(bytes::bits16(m.port));
    let buf = m.wire().skip(4);
    envelope::lemma_header_reads_back(m.type_code(), m.port, m.content_wire());
    assert(content_of(m.type_code(), buf) == Some(m.content)) by {
        match m.content {
            Content::CompCmdStat { op_code, cmd_seq, response } => {
                lemma_answer_round_trip(port, op_code, cmd_seq, response);
            },
            Content::SeqCmdBuff { data, context } => {
                envelope::lemma_packet_reads_back(port, data, context);
            },
            Content::Ping { key } => {
                envelope::lemma_u32_reads_back(port, key);
            },
            Content::Run { context } => {
                envelope::lemma_u32_reads_back(port, context);
            },
            Content::Cmd { op_code, cmd_seq, args } => {
                envelope::lemma_command_reads_back(port, op_code, cmd_seq, args);
            },
        }
    }
}

/// What the bytes of each type of message say: the port in the first two, and behind it what
/// goes with the type, numbers with their most significant byte first and strings behind their
/// length. Too few bytes, a string that is too long, an unknown response and any other type make no message.
pub proof fn law_what_messages_say(buf: Seq<u8>, other: i32)
    ensures
        ({
            let response = CmdResponse::of_code(buf[10]);
            message_of(1, buf) == if buf.len() >= 11 && response is Some {
                Some(
                    Message::<Seq<u8>> {
                        port: bytes::signed16(bytes::sum_of_two(buf, 0) as u16),
                        content: Content::CompCmdStat {
                            op_code: bytes::sum_of_four(buf, 2) as u32,
                            cmd_seq: bytes::sum_of_four(buf, 6) as u32,
                            response: response->0,
                        },
                    },
                )
            } else {
                None
            }
        }),
        ({
            let length = bytes::sum_of_two(buf, 2);
            message_of(2, buf) == if buf.len() >= 4 && length <= 512 && buf.len() >= 8 + length {
                Some(
                    Message::<Seq<u8>> {
                        port: bytes::signed16(bytes::sum_of_two(buf, 0) as u16),
                        content: Content::SeqCmdBuff {
                            data: buf.subrange(4, 4 + length),
                            context: bytes::sum_of_four(buf, 4 + length) as u32,
                        },
                    },
                )
            } else {
                None
            }
        }),
        message_of(3, buf) == if buf.len() >= 6 {
            Some(
                Message::<Seq<u8>> {
                    port: bytes::signed16(bytes::sum_of_two(buf, 0) as u16),
                    content: Content::Ping { key: bytes::sum_of_four(buf, 2) as u32 },
                },
            )
        } else {
            None
        },
        message_of(4, buf) == if buf.len() >= 6 {
            Some(
                Message::<Seq<u8>> {
                    port: bytes::signed16(bytes::sum_of_two(buf, 0) as u16),
                    content: Content::Run { context: bytes::sum_of_four(buf, 2) as u32 },
                },
            )
        } else {
            None
        },
        ({
            let length = bytes::sum_of_two(buf, 10);
            message_of(5, buf) == if buf.len() >= 12 && length <= 506 && buf.len() >= 12 + length {
                Some(
                    Message::<Seq<u8>> {
                        port: bytes::signed16(bytes::sum_of_two(buf, 0) as u16),
                        content: Content::Cmd {
                            op_code: bytes::sum_of_four(buf, 2) as u32,
                            cmd_seq: bytes::sum_of_four(buf, 6) as u32,
                            args: buf.subrange(12, 12 + length),
                        },
                    },
                )
            } else {
                None
            }
        }),
        other < 1 || other > 5 ==> message_of(other, buf) is None,
{
    bytes::law_numbers_read(buf, 0);
    bytes::law_numbers_read(buf, 2);
    bytes::law_numbers_read(buf, 6);
    bytes::law_numbers_read(buf, 10);
    bytes::law_strings_read(buf, 2, 512);
    bytes::law_strings_read(buf, 10, 506);
    bytes::law_numbers_read(buf, 4 + bytes::sum_of_two(buf, 2));
}

/// A message takes six bytes for its type and the port, and just as many more as what it says
/// needs.
pub proof fn law_message_sizes(m: Message<Seq<u8>>)
    ensures
        m.wire().len() == 6 + match m.content {
            Content::CompCmdStat { .. } => 9,
            Content::SeqCmdBuff { data, .. } => 2 + data.len() + 4,
            Content::Ping { .. } => 4,
            Content::Run { .. } => 4,
            Content::Cmd { args, .. } => 10 + args.len(),
        },
{
}

} // verus!
