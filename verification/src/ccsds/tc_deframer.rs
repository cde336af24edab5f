//! Takes telecommand transfer frames apart.
use vstd::prelude::*;

use super::crc16;
use super::crc16::Crc16;
use super::space_packet_deframer;
use super::space_packet_framer;
use super::types;
use super::types::{FrameError, SpacePacketHeader, TCHeader, TCTrailer, SPACECRAFT_ID};
use crate::fw::buffer::{Buffer, BufferView};
use crate::fw::bytes;
use crate::fw::decimal;
use crate::fw::outputs;
use crate::fw::text;
use crate::fw::types::{FrameContext, LogSeverity};

verus! {

/// `InvalidPacket`.
pub const EVENTID_INVALID_PACKET: u32 = 0;

/// `InvalidSpacecraftId`.
pub const EVENTID_INVALID_SPACECRAFT_ID: u32 = 1;

/// `InvalidFrameLength`.
pub const EVENTID_INVALID_FRAME_LENGTH: u32 = 2;

/// `InvalidVcId`.
pub const EVENTID_INVALID_VC_ID: u32 = 3;

/// `InvalidCrc`.
pub const EVENTID_INVALID_CRC: u32 = 4;

/// A frame has to be larger than its header and trailer.
pub const MIN_TC_FRAME_SIZE: usize = 7;

/// Why a frame is refused.
#[allow(inconsistent_fields)]
#[derive(Debug, Clone, Copy, PartialEq, Eq, Structural)]
pub enum TcDeframerEvent {
    /// The frame has no room for any data.
    InvalidPacket,
    /// The frame is for another spacecraft.
    InvalidSpacecraftId { transmitted: u16, configured: u16 },
    /// The frame is shorter than its header says, or the header says that it has no room
    /// for a header and trailer.
    InvalidFrameLength { transmitted: u16, actual: u64 },
    /// The frame is for another virtual channel.
    InvalidVcId { transmitted: u16, configured: u16 },
    /// The checksum does not match. On the wire the computed checksum comes first.
    InvalidCrc { computed: u16, transmitted: u16 },
}

impl TcDeframerEvent {
    /// The event identifier, relative to the component's base.
    pub open spec fn spec_id(self) -> u32 {
        match self {
            TcDeframerEvent::InvalidPacket => EVENTID_INVALID_PACKET,
            TcDeframerEvent::InvalidSpacecraftId { .. } => EVENTID_INVALID_SPACECRAFT_ID,
            TcDeframerEvent::InvalidFrameLength { .. } => EVENTID_INVALID_FRAME_LENGTH,
            TcDeframerEvent::InvalidVcId { .. } => EVENTID_INVALID_VC_ID,
            TcDeframerEvent::InvalidCrc { .. } => EVENTID_INVALID_CRC,
        }
    }

    /// How serious the event is.
    pub open spec fn spec_severity(self) -> LogSeverity {
        match self {
            TcDeframerEvent::InvalidPacket => LogSeverity::WarningLo,
            TcDeframerEvent::InvalidSpacecraftId { .. } => LogSeverity::WarningLo,
            TcDeframerEvent::InvalidFrameLength { .. } => LogSeverity::WarningHi,
            TcDeframerEvent::InvalidVcId { .. } => LogSeverity::ActivityLo,
            TcDeframerEvent::InvalidCrc { .. } => LogSeverity::WarningHi,
        }
    }

    /// The arguments on the wire.
    pub open spec fn wire(self) -> Seq<u8> {
        match self {
            TcDeframerEvent::InvalidPacket => Seq::empty(),
            TcDeframerEvent::InvalidSpacecraftId { transmitted, configured } => bytes::be16(
                transmitted,
            ) + bytes::be16(configured),
            TcDeframerEvent::InvalidFrameLength { transmitted, actual } => bytes::be16(transmitted)
                + bytes::be64(actual),
            TcDeframerEvent::InvalidVcId { transmitted, configured } => bytes::be16(transmitted)
                + bytes::be16(configured),
            TcDeframerEvent::InvalidCrc { computed, transmitted } => bytes::be16(computed)
                + bytes::be16(transmitted),
        }
    }

    /// The error that is notified. A frame without room for data is not notified.
    pub open spec fn frame_error(self) -> Option<FrameError> {
        match self {
            TcDeframerEvent::InvalidPacket => None,
            TcDeframerEvent::InvalidSpacecraftId { .. } => Some(FrameError::TcInvalidScid),
            TcDeframerEvent::InvalidFrameLength { .. } => Some(FrameError::TcInvalidLength),
            TcDeframerEvent::InvalidVcId { .. } => Some(FrameError::TcInvalidVcid),
            TcDeframerEvent::InvalidCrc { .. } => Some(FrameError::TcInvalidCrc),
        }
    }

    /// The event identifier, relative to the component's base.
    pub fn id(&self) -> (r: u32)
        ensures
            r == self.spec_id(),
    {
        match self {
            TcDeframerEvent::InvalidPacket => EVENTID_INVALID_PACKET,
            TcDeframerEvent::InvalidSpacecraftId { .. } => EVENTID_INVALID_SPACECRAFT_ID,
            TcDeframerEvent::InvalidFrameLength { .. } => EVENTID_INVALID_FRAME_LENGTH,
            TcDeframerEvent::InvalidVcId { .. } => EVENTID_INVALID_VC_ID,
            TcDeframerEvent::InvalidCrc { .. } => EVENTID_INVALID_CRC,
        }
    }

    /// How serious the event is.
    pub fn severity(&self) -> (r: LogSeverity)
        ensures
            r == self.spec_severity(),
    {
        match self {
            TcDeframerEvent::InvalidPacket => LogSeverity::WarningLo,
            TcDeframerEvent::InvalidSpacecraftId { .. } => LogSeverity::WarningLo,
            TcDeframerEvent::InvalidFrameLength { .. } => LogSeverity::WarningHi,
            TcDeframerEvent::InvalidVcId { .. } => LogSeverity::ActivityLo,
            TcDeframerEvent::InvalidCrc { .. } => LogSeverity::WarningHi,
        }
    }

    /// The arguments on the wire.
    pub fn args(&self) -> (r: Vec<u8>)
        ensures
            r@ == self.wire(),
    {
        let mut out: Vec<u8> = Vec::new();
        match self {
            TcDeframerEvent::InvalidPacket => {},
            TcDeframerEvent::InvalidSpacecraftId { transmitted, configured } => {
                bytes::push_u16(&mut out, *transmitted);
                bytes::push_u16(&mut out, *configured);
            },
            TcDeframerEvent::InvalidFrameLength { transmitted, actual } => {
                bytes::push_u16(&mut out, *transmitted);
                bytes::push_u64(&mut out, *actual);
            },
            TcDeframerEvent::InvalidVcId { transmitted, configured } => {
                bytes::push_u16(&mut out, *transmitted);
                bytes::push_u16(&mut out, *configured);
            },
            TcDeframerEvent::InvalidCrc { computed, transmitted } => {
                bytes::push_u16(&mut out, *computed);
                bytes::push_u16(&mut out, *transmitted);
            },
        }
        assert(out@ =~= self.wire());
        out
    }

    fn to_frame_error(&self) -> (r: Option<FrameError>)
        ensures
            r == self.frame_error(),
    {
        match self {
            TcDeframerEvent::InvalidPacket => None,
            TcDeframerEvent::InvalidSpacecraftId { .. } => Some(FrameError::TcInvalidScid),
            TcDeframerEvent::InvalidFrameLength { .. } => Some(FrameError::TcInvalidLength),
            TcDeframerEvent::InvalidVcId { .. } => Some(FrameError::TcInvalidVcid),
            TcDeframerEvent::InvalidCrc { .. } => Some(FrameError::TcInvalidCrc),
        }
    }
}

impl TcDeframerEvent {
    /// The text of the event.
    pub open spec fn spec_text(self) -> Seq<u8> {
        match self {
            TcDeframerEvent::InvalidPacket =>
                text::words("Invalid packet received refusing to deframe"@),
            TcDeframerEvent::InvalidSpacecraftId { transmitted, configured } =>
                text::words("Invalid Spacecraft ID Received. Received: "@)
                + decimal::digits(transmitted as nat)
                + text::words(" | Deframer configured with: "@)
                + decimal::digits(configured as nat),
            TcDeframerEvent::InvalidFrameLength { transmitted, actual } =>
                text::words("Not enough data received. Header length specified: "@)
                + decimal::digits(transmitted as nat) + text::words(" | Received data length: "@)
                + decimal::digits(actual as nat),
            TcDeframerEvent::InvalidVcId { transmitted, configured } =>
                text::words("Invalid Virtual Channel ID Received. Header token specified: "@)
                + decimal::digits(transmitted as nat)
                + text::words(" | Deframer configured with: "@)
                + decimal::digits(configured as nat),
            TcDeframerEvent::InvalidCrc { computed, transmitted } =>
                text::words("Invalid checksum received. Trailer specified: "@)
                + decimal::digits(computed as nat) + text::words(" | Computed on board: "@)
                + decimal::digits(transmitted as nat),
        }
    }

    /// The text of the event.
    pub fn text(&self) -> (r: Vec<u8>)
        ensures
            r@ == self.spec_text(),
    {
        match self {
            TcDeframerEvent::InvalidPacket => {
                text::begin("Invalid packet received refusing to deframe")
            },
            TcDeframerEvent::InvalidSpacecraftId { transmitted, configured } => {
                let mut out: Vec<u8> = text::begin("Invalid Spacecraft ID Received. Received: ");
                text::push_number(&mut out, *transmitted as u64);
                text::push_words(&mut out, " | Deframer configured with: ");
                text::push_number(&mut out, *configured as u64);
                out
            },
            TcDeframerEvent::InvalidFrameLength { transmitted, actual } => {
                let mut out: Vec<u8> = text::begin("Not enough data received. Header length specified: ");
                text::push_number(&mut out, *transmitted as u64);
                text::push_words(&mut out, " | Received data length: ");
                text::push_number(&mut out, *actual as u64);
                out
            },
            TcDeframerEvent::InvalidVcId { transmitted, configured } => {
                let mut out: Vec<u8> = text::begin("Invalid Virtual Channel ID Received. Header token specified: ");
                text::push_number(&mut out, *transmitted as u64);
                text::push_words(&mut out, " | Deframer configured with: ");
                text::push_number(&mut out, *configured as u64);
                out
            },
            TcDeframerEvent::InvalidCrc { computed, transmitted } => {
                let mut out: Vec<u8> = text::begin("Invalid checksum received. Trailer specified: ");
                text::push_number(&mut out, *computed as u64);
                text::push_words(&mut out, " | Computed on board: ");
                text::push_number(&mut out, *transmitted as u64);
                out
            },
        }
    }
}

/// A port call that the deframer makes. `D` is a buffer, or its view in contracts.
#[derive(Debug)]
pub enum TcDeframerAction<D = Buffer> {
    /// Report an event.
    Event(TcDeframerEvent),
    /// Notify an error.
    ErrorNotify(FrameError),
    /// Hand on the data field of a frame.
    DataOut { data: D, context: FrameContext },
    /// Give a buffer back.
    DataReturnOut { data: D, context: FrameContext },
}

impl View for TcDeframerAction<Buffer> {
    type V = TcDeframerAction<BufferView>;

    open spec fn view(&self) -> TcDeframerAction<BufferView> {
        match self {
            TcDeframerAction::Event(e) => TcDeframerAction::Event(*e),
            TcDeframerAction::ErrorNotify(e) => TcDeframerAction::ErrorNotify(*e),
            TcDeframerAction::DataOut { data, context } => TcDeframerAction::DataOut {
                data: data@,
                context: *context,
            },
            TcDeframerAction::DataReturnOut { data, context } => TcDeframerAction::DataReturnOut {
                data: data@,
                context: *context,
            },
        }
    }
}

/// Takes telecommand transfer frames apart: hands on the data field in the same buffer.
#[derive(Debug, Clone, Copy, PartialEq, Eq, Structural)]
pub struct TcDeframer {
    /// The virtual channel that frames are taken from.
    pub vc_id: u16,
    /// The spacecraft that frames are taken for.
    pub spacecraft_id: u16,
    /// Whether frames are taken from every virtual channel.
    pub accept_all_vcid: bool,
    /// Whether anyone listens for errors.
    pub error_notify_connected: bool,
}

/// Why a frame is refused, if it is. The first reason counts.
pub open spec fn frame_fault(config: TcDeframer, frame: Seq<u8>) -> Option<TcDeframerEvent> {
    let header = TCHeader::at_start(frame);
    let covered = header.total() - TCTrailer::SERIALIZED_SIZE;
    if frame.len() <= MIN_TC_FRAME_SIZE {
        Some(TcDeframerEvent::InvalidPacket)
    } else if header.scid() != config.spacecraft_id {
        Some(
            TcDeframerEvent::InvalidSpacecraftId {
                transmitted: header.scid() as u16,
                configured: config.spacecraft_id,
            },
        )
    } else if frame.len() < header.total() || header.total() < MIN_TC_FRAME_SIZE {
        Some(
            TcDeframerEvent::InvalidFrameLength {
                transmitted: header.total() as u16,
                actual: frame.len() as u64,
            },
        )
    } else if !config.accept_all_vcid && header.vcid() != config.vc_id {
        Some(
            TcDeframerEvent::InvalidVcId {
                transmitted: header.vcid() as u16,
                configured: config.vc_id,
            },
        )
    } else if crc16::crc16(frame.take(covered)) != bytes::u16_at(frame, covered) {
        Some(
            TcDeframerEvent::InvalidCrc {
                computed: crc16::crc16(frame.take(covered)),
                transmitted: bytes::u16_at(frame, covered),
            },
        )
    } else {
        None
    }
}

/// How many bytes the data field of a frame without fault has.
pub open spec fn data_length(frame: Seq<u8>) -> nat {
    (TCHeader::at_start(frame).total() - MIN_TC_FRAME_SIZE) as nat
}

/// What the deframer puts out for a frame.
pub open spec fn deframed(
    config: TcDeframer,
    data: BufferView,
    context: FrameContext,
) -> Seq<TcDeframerAction<BufferView>> {
    match frame_fault(config, data.bytes()) {
        Some(event) => {
            let reported = seq![TcDeframerAction::<BufferView>::Event(event)];
            let notified = if config.error_notify_connected && event.frame_error() is Some {
                reported.push(TcDeframerAction::ErrorNotify(event.frame_error()->0))
            } else {
                reported
            };
            notified.push(TcDeframerAction::DataReturnOut { data, context })
        },
        None => seq![
            TcDeframerAction::DataOut {
                data: data.window(
                    TCHeader::SERIALIZED_SIZE as nat,
                    data_length(data.bytes()),
                ),
                context,
            },
        ],
    }
}

impl TcDeframer {
    /// A deframer for this spacecraft and all virtual channels; nobody listens for errors
    /// yet.
    pub fn new() -> (r: Self)
        ensures
            r == (TcDeframer {
                vc_id: 0,
                spacecraft_id: SPACECRAFT_ID,
                accept_all_vcid: true,
                error_notify_connected: false,
            }),
    {
        TcDeframer {
            vc_id: 0,
            spacecraft_id: SPACECRAFT_ID,
            accept_all_vcid: true,
            error_notify_connected: false,
        }
    }

    /// Sets which frames are taken.
    pub fn configure(&mut self, vc_id: u16, spacecraft_id: u16, accept_all_vcid: bool)
        ensures
            *final(self) == (TcDeframer { vc_id, spacecraft_id, accept_all_vcid, ..*old(self) }),
    {
        self.vc_id = vc_id;
        self.spacecraft_id = spacecraft_id;
        self.accept_all_vcid = accept_all_vcid;
    }

    /// Notes that someone listens for errors.
    pub fn connect_error_notify(&mut self)
        ensures
            *final(self) == (TcDeframer { error_notify_connected: true, ..*old(self) }),
    {
        self.error_notify_connected = true;
    }

    fn reject(
        &self,
        event: TcDeframerEvent,
        data: Buffer,
        context: &FrameContext,
        out: &mut Vec<TcDeframerAction>,
    )
        requires
            frame_fault(*self, data@.bytes()) == Some(event),
        ensures
            outputs::views(final(out)@) == outputs::views(old(out)@) + deframed(
                *self,
                data@,
                *context,
            ),
    {
        let ghost before = outputs::views(out@);
        let ghost view = data@;
        outputs::emit(out, TcDeframerAction::Event(event));
        if self.error_notify_connected {
            match event.to_frame_error() {
                Some(error) => {
                    outputs::emit(out, TcDeframerAction::ErrorNotify(error));
                },
                None => {},
            }
        }
        outputs::emit(out, TcDeframerAction::DataReturnOut { data, context: *context });
        assert(outputs::views(out@) =~= before + deframed(*self, view, *context));
    }

    /// A frame arrives.
    pub fn data_in(&self, data: Buffer, context: &FrameContext, out: &mut Vec<TcDeframerAction>)
        ensures
            outputs::views(final(out)@) == outputs::views(old(out)@) + deframed(
                *self,
                data@,
                *context,
            ),
    {
        let ghost before = outputs::views(out@);
        let ghost view = data@;
        let size: usize = data.size();
        let frame: Vec<u8> = data.to_vec();
        if size <= MIN_TC_FRAME_SIZE {
            self.reject(TcDeframerEvent::InvalidPacket, data, context, out);
            return;
        }
        let header = TCHeader::new(
            frame[0] as u16 * 0x100 + frame[1] as u16,
            frame[2] as u16 * 0x100 + frame[3] as u16,
            frame[4],
        );
        assert(header == TCHeader::at_start(frame@));
        let total_frame_length: u16 = header.total_frame_length();
        let vc_id: u16 = header.vc_id() as u16;
        let spacecraft_id: u16 = header.spacecraft_id();
        if spacecraft_id != self.spacecraft_id {
            self.reject(
                TcDeframerEvent::InvalidSpacecraftId {
                    transmitted: spacecraft_id,
                    configured: self.spacecraft_id,
                },
                data,
                context,
                out,
            );
            return;
        }
        if size < total_frame_length as usize || (total_frame_length as usize) < MIN_TC_FRAME_SIZE {
            self.reject(
                TcDeframerEvent::InvalidFrameLength {
                    transmitted: total_frame_length,
                    actual: size as u64,
                },
                data,
                context,
                out,
            );
            return;
        }
        if !self.accept_all_vcid && vc_id != self.vc_id {
            self.reject(
                TcDeframerEvent::InvalidVcId { transmitted: vc_id, configured: self.vc_id },
                data,
                context,
                out,
            );
            return;
        }
        let crc_len: usize = total_frame_length as usize - TCTrailer::SERIALIZED_SIZE;
        let computed: u16 = Crc16::compute_prefix(frame.as_slice(), crc_len);
        let transmitted: u16 = frame[crc_len] as u16 * 0x100 + frame[crc_len + 1] as u16;
        if transmitted != computed {
            self.reject(
                TcDeframerEvent::InvalidCrc { computed, transmitted },
                data,
                context,
                out,
            );
            return;
        }
        let data = data.narrowed(
            TCHeader::SERIALIZED_SIZE,
            total_frame_length as usize - MIN_TC_FRAME_SIZE,
        );
        outputs::emit(out, TcDeframerAction::DataOut { data, context: *context });
        assert(outputs::views(out@) =~= before + deframed(*self, view, *context));
    }

    /// A data field comes back; it is passed on upstream.
    pub fn data_return_in(
        &self,
        data: Buffer,
        context: &FrameContext,
        out: &mut Vec<TcDeframerAction>,
    )
        ensures
            outputs::views(final(out)@) == outputs::views(old(out)@).push(
                TcDeframerAction::DataReturnOut { data: data@, context: *context },
            ),
    {
        outputs::emit(out, TcDeframerAction::DataReturnOut { data, context: *context });
    }
}

/// The header of a frame that carries `length` bytes.
pub open spec fn tc_header(
    bypass: bool,
    control: bool,
    spacecraft_id: u16,
    vc_id: u8,
    sequence: u8,
    length: nat,
) -> TCHeader {
    TCHeader {
        flags_and_sc_id: TCHeader::flags_word(bypass, control, spacecraft_id),
        vc_id_and_length: TCHeader::length_word(vc_id, (length + MIN_TC_FRAME_SIZE) as u16),
        frame_sequence_num: sequence,
    }
}

/// The frame of a header and a payload: both, then the checksum of both.
pub open spec fn tc_frame(header: TCHeader, payload: Seq<u8>) -> Seq<u8> {
    let covered = header.wire() + payload;
    covered + bytes::be16(crc16::crc16(covered))
}

/// Where the parts of a frame stand.
proof fn lemma_frame_parts(head: Seq<u8>, payload: Seq<u8>, sum: Seq<u8>, trailing: Seq<u8>)
    ensures
        ({
            let frame = head + payload + sum + trailing;
            let start = head.len() as int;
            let end = start + payload.len();
            &&& frame.len() == end + sum.len() + trailing.len()
            &&& frame == head + (payload + sum + trailing)
            &&& frame.take(end) == head + payload
            &&& frame.subrange(start, end) == payload
        }),
{
    let frame = head + payload + sum + trailing;
    let start = head.len() as int;
    let end = start + payload.len();
    assert(frame =~= head + (payload + sum + trailing));
    assert(frame.take(end) =~= head + payload);
    assert(frame.subrange(start, end) =~= payload);
}

/// A frame that passes every test is taken.
proof fn lemma_taken(config: TcDeframer, frame: Seq<u8>, length: nat)
    requires
        MIN_TC_FRAME_SIZE < frame.len(),
        TCHeader::at_start(frame).scid() == config.spacecraft_id,
        TCHeader::at_start(frame).total() == length + MIN_TC_FRAME_SIZE <= frame.len(),
        config.accept_all_vcid || TCHeader::at_start(frame).vcid() == config.vc_id,
        ({
            let covered = length + TCHeader::SERIALIZED_SIZE as int;
            crc16::crc16(frame.take(covered)) == bytes::u16_at(frame, covered)
        }),
    ensures
        frame_fault(config, frame) is None,
        data_length(frame) == length,
{
}

/// Taking apart a frame laid out as the link protocol says gives back its payload,
/// whatever follows the frame and whatever its flags and sequence number are, provided
/// that the frame is for a spacecraft and a virtual channel that are taken.
pub proof fn law_tc_frame_round_trip(
    config: TcDeframer,
    bypass: bool,
    control: bool,
    vc_id: u8,
    sequence: u8,
    payload: Seq<u8>,
    trailing: Seq<u8>,
)
    requires
        config.spacecraft_id < 0x400,
        vc_id < 64,
        config.accept_all_vcid || config.vc_id == vc_id,
        0 < payload.len() + trailing.len(),
        payload.len() + MIN_TC_FRAME_SIZE <= 0x400,
    ensures
        ({
            let header = tc_header(
                bypass,
                control,
                config.spacecraft_id,
                vc_id,
                sequence,
                payload.len(),
            );
            let frame = tc_frame(header, payload) + trailing;
            let size = TCHeader::SERIALIZED_SIZE as int;
            &&& frame_fault(config, frame) is None
            &&& data_length(frame) == payload.len()
            &&& frame.subrange(size, size + payload.len()) == payload
        }),
{
    let header = tc_header(
        bypass,
        control,
        config.spacecraft_id,
        vc_id,
        sequence,
        payload.len(),
    );
    let covered = header.wire() + payload;
    let crc = crc16::crc16(covered);
    let frame = tc_frame(header, payload) + trailing;
    lemma_frame_parts(header.wire(), payload, bytes::be16(crc), trailing);
    assert(TCHeader::at_start(frame) == header) by {
        types::law_tc_header_round_trip(header, payload + bytes::be16(crc) + trailing);
    }
    types::law_tc_words_round_trip(
        bypass,
        control,
        config.spacecraft_id,
        vc_id,
        (payload.len() + MIN_TC_FRAME_SIZE) as u16,
    );
    assert(header.total() == payload.len() + MIN_TC_FRAME_SIZE);
    assert(bytes::u16_at(frame, covered.len() as int) == crc) by {
        bytes::law_u16_round_trip(covered, crc, trailing);
    }
    lemma_taken(config, frame, payload.len());
}

/// A space packet sent in a telecommand frame can be taken out of the frame and apart
/// again: payload and context come back.
pub proof fn law_packet_in_tc_frame_round_trip(
    config: TcDeframer,
    bypass: bool,
    control: bool,
    vc_id: u8,
    sequence: u8,
    context: FrameContext,
    sequence_count: u16,
    payload: Seq<u8>,
    received: FrameContext,
)
    requires
        config.spacecraft_id < 0x400,
        vc_id < 64,
        config.accept_all_vcid || config.vc_id == vc_id,
        0 < payload.len(),
        payload.len() + SpacePacketHeader::SERIALIZED_SIZE + MIN_TC_FRAME_SIZE <= 0x400,
        context.apid.code() < 0x800,
    ensures
        ({
            let packet = space_packet_framer::packet_bytes(context, sequence_count, payload);
            let header = tc_header(
                bypass,
                control,
                config.spacecraft_id,
                vc_id,
                sequence,
                packet.len(),
            );
            let frame = tc_frame(header, packet);
            let start = TCHeader::SERIALIZED_SIZE as int;
            let field = frame.subrange(start, start + data_length(frame));
            let size = SpacePacketHeader::SERIALIZED_SIZE as int;
            let n = space_packet_deframer::data_length(field) as int;
            &&& frame_fault(config, frame) is None
            &&& space_packet_deframer::packet_fault(field) is None
            &&& field.subrange(size, size + n) == payload
            &&& space_packet_deframer::packet_context(field, received) == FrameContext {
                apid: context.apid,
                has_sec_hdr: context.has_sec_hdr,
                sequence_flags: (context.sequence_flags % 4) as u8,
                sequence_count: (sequence_count % 0x4000) as u16,
                ..received
            }
        }),
{
    let packet = space_packet_framer::packet_bytes(context, sequence_count, payload);
    let header = tc_header(bypass, control, config.spacecraft_id, vc_id, sequence, packet.len());
    let e = Seq::<u8>::empty();
    law_tc_frame_round_trip(config, bypass, control, vc_id, sequence, packet, e);
    assert(tc_frame(header, packet) + e =~= tc_frame(header, packet));
    space_packet_framer::law_space_packet_round_trip(
        context,
        sequence_count,
        payload,
        e,
        received,
    );
    assert(packet + e =~= packet);
}

/// A frame whose checksum was changed on the way is refused for its checksum.
pub proof fn law_changed_checksum_is_refused(
    config: TcDeframer,
    frame: Seq<u8>,
    changed: Seq<u8>,
)
    requires
        frame_fault(config, frame) is None,
        changed.len() == frame.len(),
        ({
            let covered = TCHeader::at_start(frame).total() - TCTrailer::SERIALIZED_SIZE;
            &&& changed.take(covered) == frame.take(covered)
            &&& bytes::u16_at(changed, covered) != bytes::u16_at(frame, covered)
        }),
    ensures
        frame_fault(config, changed) is Some,
        frame_fault(config, changed)->0 is InvalidCrc,
{
    let covered = TCHeader::at_start(frame).total() - TCTrailer::SERIALIZED_SIZE;
    assert forall|i: int| 0 <= i < covered implies changed[i] == frame[i] by {
        assert(changed.take(covered)[i] == frame.take(covered)[i]);
    }
    assert(TCHeader::at_start(changed) == TCHeader::at_start(frame));
}

/// No buffer gets lost: whatever arrives leaves again exactly once. The data field of a
/// frame is handed on in the same storage; a frame that is refused is given back as it
/// came.
pub proof fn law_tc_deframer_keeps_buffers(
    config: TcDeframer,
    data: BufferView,
    context: FrameContext,
)
    ensures
        ({
            let out = deframed(config, data, context);
            &&& out.len() >= 1
            &&& match out.last() {
                TcDeframerAction::DataOut { data: d, context: c } => frame_fault(
                    config,
                    data.bytes(),
                ) is None && d.storage == data.storage && d.context == data.context && c
                    == context,
                TcDeframerAction::DataReturnOut { data: d, context: c } => frame_fault(
                    config,
                    data.bytes(),
                ) is Some && d == data && c == context,
                _ => false,
            }
            &&& forall|i: int|
                0 <= i < out.len() - 1 ==> !((#[trigger] out[i]) is DataOut) && !(
                out[i] is DataReturnOut)
        }),
{
}

/// Where the fields of a frame header stand: the spacecraft in the last ten bits of the first
/// two bytes, the virtual channel in the first six bits of the third, and in the ten bits
/// that follow the length of the whole frame, less one.
pub proof fn law_tc_header_fields(frame: Seq<u8>)
    ensures
        TCHeader::at_start(frame).scid() == (frame[0] % 4) * 256 + frame[1],
        TCHeader::at_start(frame).vcid() == frame[2] / 4,
        TCHeader::at_start(frame).total() == (frame[2] % 4) * 256 + frame[3] + 1,
{
}

/// A frame is taken when it is longer than its header and trailer, is for the spacecraft that
/// is taken, is all there, comes from the virtual channel that is taken unless all are, and
/// ends in the checksum of everything before it; and only then. No frame for another
/// spacecraft is ever taken, nor one from another channel.
pub proof fn law_only_own_frames_are_taken(config: TcDeframer, frame: Seq<u8>)
    ensures
        ({
            let scid = (frame[0] % 4) * 256 + frame[1];
            let total = (frame[2] % 4) * 256 + frame[3] + 1;
            frame_fault(config, frame) is None <==> {
                &&& frame.len() > 7
                &&& scid == config.spacecraft_id
                &&& 7 <= total <= frame.len()
                &&& config.accept_all_vcid || frame[2] / 4 == config.vc_id
                &&& crc16::crc16(frame.subrange(0, total - 2)) == frame[total - 2] * 256
                    + frame[total - 1]
            }
        }),
{
    law_tc_header_fields(frame);
    let total = (frame[2] % 4) * 256 + frame[3] + 1;
    bytes::law_numbers_at(frame, total - 2);
}

/// A frame that is refused is refused for the first thing that is wrong with it, and the
/// report says what the frame has and what it should have.
pub proof fn law_why_frames_are_refused(config: TcDeframer, frame: Seq<u8>)
    ensures
        ({
            let fault = frame_fault(config, frame);
            let scid = (frame[0] % 4) * 256 + frame[1];
            let total = (frame[2] % 4) * 256 + frame[3] + 1;
            let vcid = (frame[2] / 4) as int;
            let short = total < 7 || frame.len() < total;
            let foreign = !config.accept_all_vcid && vcid != config.vc_id;
            &&& frame.len() <= 7 ==> fault == Some(TcDeframerEvent::InvalidPacket)
            &&& frame.len() > 7 && scid != config.spacecraft_id ==> fault == Some(
                TcDeframerEvent::InvalidSpacecraftId {
                    transmitted: scid as u16,
                    configured: config.spacecraft_id,
                },
            )
            &&& frame.len() > 7 && scid == config.spacecraft_id && short ==> fault == Some(
                TcDeframerEvent::InvalidFrameLength {
                    transmitted: total as u16,
                    actual: frame.len() as u64,
                },
            )
            &&& frame.len() > 7 && scid == config.spacecraft_id && !short && foreign ==> fault
                == Some(
                TcDeframerEvent::InvalidVcId {
                    transmitted: vcid as u16,
                    configured: config.vc_id,
                },
            )
            &&& frame.len() > 7 && scid == config.spacecraft_id && !short && !foreign ==> {
                let computed = crc16::crc16(frame.subrange(0, total - 2));
                let transmitted = (frame[total - 2] * 256 + frame[total - 1]) as u16;
                fault == if computed == transmitted {
                    None
                } else {
                    Some(TcDeframerEvent::InvalidCrc { computed, transmitted })
                }
            }
        }),
{
    law_tc_header_fields(frame);
    let total = (frame[2] % 4) * 256 + frame[3] + 1;
    bytes::law_numbers_at(frame, total - 2);
}

/// Of a frame that is taken the bytes between header and trailer are handed on, in the same
/// storage and with the same context, and nothing is reported. One that is refused is
/// reported, notified to whoever listens unless it was just too short, and given back as it
/// came.
pub proof fn law_what_becomes_of_a_frame(config: TcDeframer, data: BufferView, context: FrameContext)
    requires
        data.wf(),
    ensures
        ({
            let out = deframed(config, data, context);
            let frame = data.storage.subrange(
                data.offset as int,
                (data.offset + data.size) as int,
            );
            let total = (frame[2] % 4) * 256 + frame[3] + 1;
            match frame_fault(config, frame) {
                None => {
                    &&& out.len() == 1
                    &&& out[0] matches TcDeframerAction::DataOut { data: field, context: c }
                    &&& c == context
                    &&& field.storage == data.storage
                    &&& field.context == data.context
                    &&& field.offset == data.offset + 5
                    &&& field.size == total - 7
                    &&& field.storage.subrange(
                        field.offset as int,
                        (field.offset + field.size) as int,
                    ) == frame.subrange(5, total - 2)
                },
                Some(event) => {
                    let error = match event {
                        TcDeframerEvent::InvalidPacket => None,
                        TcDeframerEvent::InvalidSpacecraftId { .. } => Some(
                            FrameError::TcInvalidScid,
                        ),
                        TcDeframerEvent::InvalidFrameLength { .. } => Some(
                            FrameError::TcInvalidLength,
                        ),
                        TcDeframerEvent::InvalidVcId { .. } => Some(FrameError::TcInvalidVcid),
                        TcDeframerEvent::InvalidCrc { .. } => Some(FrameError::TcInvalidCrc),
                    };
                    let back = TcDeframerAction::DataReturnOut { data, context };
                    if config.error_notify_connected && error is Some {
                        out == seq![
                            TcDeframerAction::Event(event),
                            TcDeframerAction::ErrorNotify(error->0),
                            back,
                        ]
                    } else {
                        out == seq![TcDeframerAction::Event(event), back]
                    }
                },
            }
        }),
{
    let out = deframed(config, data, context);
    let frame = data.bytes();
    law_tc_header_fields(frame);
    let total = (frame[2] % 4) * 256 + frame[3] + 1;
    match frame_fault(config, frame) {
        None => {
            let field = out[0]->DataOut_data;
            assert(field.storage.subrange(
                field.offset as int,
                (field.offset + field.size) as int,
            ) =~= frame.subrange(5, total - 2));
        },
        Some(event) => {
            let back = TcDeframerAction::DataReturnOut { data, context };
            assert(seq![TcDeframerAction::Event(event), back] =~= seq![
                TcDeframerAction::Event(event),
            ].push(back));
            if event.frame_error() is Some {
                let notify = TcDeframerAction::<BufferView>::ErrorNotify(event.frame_error()->0);
                assert(seq![TcDeframerAction::Event(event), notify, back] =~= seq![
                    TcDeframerAction::Event(event),
                ].push(notify).push(back));
            }
        },
    }
}

/// Each reason to refuse a frame has a number of its own, and its arguments follow each other in
/// two bytes each, but for a length that was received, which takes eight.
pub proof fn law_refusals_on_the_wire(e: TcDeframerEvent)
    ensures
        e is InvalidPacket <==> e.spec_id() == 0,
        e is InvalidSpacecraftId <==> e.spec_id() == 1,
        e is InvalidFrameLength <==> e.spec_id() == 2,
        e is InvalidVcId <==> e.spec_id() == 3,
        e is InvalidCrc <==> e.spec_id() == 4,
        e.spec_severity() == LogSeverity::WarningHi <==> e is InvalidFrameLength || e is InvalidCrc,
        e.spec_severity() == LogSeverity::ActivityLo <==> e is InvalidVcId,
        e.spec_severity() == LogSeverity::WarningLo <==> e is InvalidPacket
            || e is InvalidSpacecraftId,
        ({
            let w = e.wire();
            match e {
                TcDeframerEvent::InvalidPacket => w.len() == 0,
                TcDeframerEvent::InvalidSpacecraftId { transmitted, configured } => {
                    &&& w.len() == 4
                    &&& bytes::sum_of_two(w, 0) == transmitted
                    &&& bytes::sum_of_two(w, 2) == configured
                },
                TcDeframerEvent::InvalidFrameLength { transmitted, actual } => {
                    &&& w.len() == 10
                    &&& bytes::sum_of_two(w, 0) == transmitted
                    &&& bytes::sum_of_four(w, 2) * 0x1_0000_0000 + bytes::sum_of_four(w, 6)
                        == actual
                },
                TcDeframerEvent::InvalidVcId { transmitted, configured } => {
                    &&& w.len() == 4
                    &&& bytes::sum_of_two(w, 0) == transmitted
                    &&& bytes::sum_of_two(w, 2) == configured
                },
                TcDeframerEvent::InvalidCrc { computed, transmitted } => {
                    &&& w.len() == 4
                    &&& bytes::sum_of_two(w, 0) == computed
                    &&& bytes::sum_of_two(w, 2) == transmitted
                },
            }
        }),
{
    match e {
        TcDeframerEvent::InvalidFrameLength { transmitted, actual } => {
            bytes::law_most_significant_first(transmitted, 0);
            bytes::law_most_significant_of_eight_first(actual);
            let w = e.wire();
            let length = bytes::be64(actual);
            assert(forall|i: int| 0 <= i < 8 ==> w[i + 2] == #[trigger] length[i]);
            assert(w[2] == length[0] && w[3] == length[1] && w[4] == length[2] && w[5] == length[3]);
            assert(w[6] == length[4] && w[7] == length[5] && w[8] == length[6] && w[9] == length[7]);
        },
        _ => {},
    }
}

/// A frame in whose data field one byte was changed on the way is refused for its checksum.
pub proof fn law_changed_data_is_refused(config: TcDeframer, frame: Seq<u8>, i: int, byte: u8)
    requires
        frame_fault(config, frame) is None,
        5 <= i < (frame[2] % 4) * 256 + frame[3] + 1 - 2,
        byte != frame[i],
    ensures
        frame_fault(config, frame.update(i, byte)) is Some,
        frame_fault(config, frame.update(i, byte))->0 is InvalidCrc,
{
    let changed = frame.update(i, byte);
    let covered = (frame[2] % 4) * 256 + frame[3] + 1 - 2;
    law_tc_header_fields(frame);
    law_tc_header_fields(changed);
    law_only_own_frames_are_taken(config, frame);
    law_why_frames_are_refused(config, changed);
    let before = frame.take(i);
    let after = frame.subrange(i + 1, covered);
    assert(frame.subrange(0, covered) =~= before.push(frame[i]) + after);
    assert(changed.subrange(0, covered) =~= before.push(byte) + after);
    crc16::law_one_changed_byte_changes_the_checksum(before, frame[i], byte, after);
}

} // verus!
