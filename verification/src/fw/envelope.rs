//! The form of queued messages: a type, a port number, and what follows.
use vstd::prelude::*;

use super::bytes;
use super::bytes::SerializeStatus;

verus! {

broadcast use super::bytes::lemma_be32_len;

/// How large a packet can be.
pub const COM_BUFFER_MAX_SIZE: usize = 512;

/// How many argument bytes a command can carry.
pub const CMD_ARG_BUFFER_MAX_SIZE: usize = 506;

/// What a message begins with.
pub open spec fn header(msg_type: i32, port: i16) -> Seq<u8> {
    bytes::be32(bytes::bits32(msg_type)) + bytes::be16(bytes::bits16(port))
}

/// What a packet and its context are in a message.
pub open spec fn packet_wire(data: Seq<u8>, context: u32) -> Seq<u8> {
    bytes::be_string(data) + bytes::be32(context)
}

/// What a command is in a message.
pub open spec fn command_wire(op_code: u32, cmd_seq: u32, args: Seq<u8>) -> Seq<u8> {
    bytes::be32(op_code) + bytes::be32(cmd_seq) + bytes::be_string(args)
}

/// Begins a message.
pub fn push_header(out: &mut Vec<u8>, msg_type: i32, port: i16)
    ensures
        final(out)@ == old(out)@ + header(msg_type, port),
{
    let ghost before = out@;
    bytes::push_i32(out, msg_type);
    bytes::push_i16(out, port);
    assert(out@ =~= before + header(msg_type, port));
}

/// Appends a packet and its context.
pub fn push_packet(out: &mut Vec<u8>, data: &[u8], context: u32)
    requires
        data@.len() <= COM_BUFFER_MAX_SIZE,
    ensures
        final(out)@ == old(out)@ + packet_wire(data@, context),
{
    let ghost before = out@;
    bytes::push_string(out, data);
    bytes::push_u32(out, context);
    assert(out@ =~= before + packet_wire(data@, context));
}

/// Appends a command.
pub fn push_command(out: &mut Vec<u8>, op_code: u32, cmd_seq: u32, args: &[u8])
    requires
        args@.len() <= CMD_ARG_BUFFER_MAX_SIZE,
    ensures
        final(out)@ == old(out)@ + command_wire(op_code, cmd_seq, args@),
{
    let ghost before = out@;
    bytes::push_u32(out, op_code);
    bytes::push_u32(out, cmd_seq);
    bytes::push_string(out, args);
    assert(out@ =~= before + command_wire(op_code, cmd_seq, args@));
}

/// The type and the port of a message read back, and what follows stands behind them.
pub proof fn lemma_header_reads_back(msg_type: i32, port: i16, rest: Seq<u8>)
    ensures
        ({
            let message = header(msg_type, port) + rest;
            let p = bytes::be16(bytes::bits16(port));
            &&& message.take(4) == bytes::be32(bytes::bits32(msg_type))
            &&& message.skip(4) == p + rest
            &&& bytes::u16_read(message.skip(4), 0) == Ok::<u16, SerializeStatus>(
                bytes::bits16(port),
            )
            &&& bytes::signed16(bytes::bits16(port)) == port
        }),
{
    let message = header(msg_type, port) + rest;
    let p = bytes::be16(bytes::bits16(port));
    let e = Seq::<u8>::empty();
    assert(message.take(4) =~= bytes::be32(bytes::bits32(msg_type)));
    assert(message.skip(4) =~= p + rest);
    assert(message.skip(4) =~= e + p + rest);
    bytes::law_u16_round_trip(e, bytes::bits16(port), rest);
    bytes::law_signed_bits_round_trip(port, msg_type);
}

/// A number behind the port reads back.
pub proof fn lemma_u32_reads_back(port: Seq<u8>, v: u32)
    requires
        port.len() == 2,
    ensures
        bytes::u32_read(port + bytes::be32(v), 2) == Ok::<u32, SerializeStatus>(v),
{
    bytes::lemma_join(port, bytes::be32(v), Seq::empty());
    bytes::law_u32_round_trip(port, v, Seq::empty());
}

/// A packet behind the port reads back.
proof fn lemma_packet_data(port: Seq<u8>, data: Seq<u8>, context: u32)
    requires
        port.len() == 2,
        data.len() <= COM_BUFFER_MAX_SIZE,
    ensures
        bytes::string_read(port + packet_wire(data, context), 2, COM_BUFFER_MAX_SIZE as int) == Ok::<
            Seq<u8>,
            SerializeStatus,
        >(data),
{
    bytes::lemma_join(port, bytes::be_string(data), bytes::be32(context));
    bytes::law_string_round_trip(port, data, bytes::be32(context), COM_BUFFER_MAX_SIZE as int);
}

/// The context of a packet behind the port reads back.
proof fn lemma_packet_context(port: Seq<u8>, data: Seq<u8>, context: u32)
    requires
        port.len() == 2,
    ensures
        bytes::u32_read(port + packet_wire(data, context), 4 + data.len() as int) == Ok::<
            u32,
            SerializeStatus,
        >(context),
{
    let before = port + bytes::be_string(data);
    bytes::lemma_join(port, bytes::be_string(data), bytes::be32(context));
    bytes::lemma_join(before, bytes::be32(context), Seq::empty());
    assert(before.len() == 4 + data.len());
    bytes::law_u32_round_trip(before, context, Seq::empty());
}

/// A packet and its context behind the port read back.
pub proof fn lemma_packet_reads_back(port: Seq<u8>, data: Seq<u8>, context: u32)
    requires
        port.len() == 2,
        data.len() <= COM_BUFFER_MAX_SIZE,
    ensures
        bytes::string_read(port + packet_wire(data, context), 2, COM_BUFFER_MAX_SIZE as int) == Ok::<
            Seq<u8>,
            SerializeStatus,
        >(data),
        bytes::u32_read(port + packet_wire(data, context), 4 + data.len() as int) == Ok::<
            u32,
            SerializeStatus,
        >(context),
{
    lemma_packet_data(port, data, context);
    lemma_packet_context(port, data, context);
}

/// An opcode and a sequence number behind the port read back, whatever follows.
pub proof fn lemma_opcode_reads_back(port: Seq<u8>, op_code: u32, cmd_seq: u32, rest: Seq<u8>)
    requires
        port.len() == 2,
    ensures
        ({
            let buf = port + (bytes::be32(op_code) + bytes::be32(cmd_seq) + rest);
            &&& bytes::u32_read(buf, 2) == Ok::<u32, SerializeStatus>(op_code)
            &&& bytes::u32_read(buf, 6) == Ok::<u32, SerializeStatus>(cmd_seq)
            &&& buf == port + bytes::be32(op_code) + bytes::be32(cmd_seq) + rest
        }),
{
    let first = port + bytes::be32(op_code);
    bytes::lemma_join_four(port, bytes::be32(op_code), bytes::be32(cmd_seq), rest);
    bytes::law_u32_round_trip(port, op_code, bytes::be32(cmd_seq) + rest);
    bytes::law_u32_round_trip(first, cmd_seq, rest);
}

/// The arguments of a command behind the port read back.
proof fn lemma_command_args(port: Seq<u8>, op_code: u32, cmd_seq: u32, args: Seq<u8>)
    requires
        port.len() == 2,
        args.len() <= CMD_ARG_BUFFER_MAX_SIZE,
    ensures
        bytes::string_read(
            port + command_wire(op_code, cmd_seq, args),
            10,
            CMD_ARG_BUFFER_MAX_SIZE as int,
        ) == Ok::<Seq<u8>, SerializeStatus>(args),
{
    let front = port + bytes::be32(op_code) + bytes::be32(cmd_seq);
    bytes::lemma_join_four(
        port,
        bytes::be32(op_code),
        bytes::be32(cmd_seq),
        bytes::be_string(args),
    );
    bytes::lemma_join(front, bytes::be_string(args), Seq::empty());
    assert(front.len() == 10);
    bytes::law_string_round_trip(front, args, Seq::empty(), CMD_ARG_BUFFER_MAX_SIZE as int);
}

/// A command behind the port reads back.
pub proof fn lemma_command_reads_back(port: Seq<u8>, op_code: u32, cmd_seq: u32, args: Seq<u8>)
    requires
        port.len() == 2,
        args.len() <= CMD_ARG_BUFFER_MAX_SIZE,
    ensures
        bytes::u32_read(port + command_wire(op_code, cmd_seq, args), 2) == Ok::<
            u32,
            SerializeStatus,
        >(op_code),
        bytes::u32_read(port + command_wire(op_code, cmd_seq, args), 6) == Ok::<
            u32,
            SerializeStatus,
        >(cmd_seq),
        bytes::string_read(
            port + command_wire(op_code, cmd_seq, args),
            10,
            CMD_ARG_BUFFER_MAX_SIZE as int,
        ) == Ok::<Seq<u8>, SerializeStatus>(args),
{
    lemma_opcode_reads_back(port, op_code, cmd_seq, bytes::be_string(args));
    lemma_command_args(port, op_code, cmd_seq, args);
}

} // verus!
