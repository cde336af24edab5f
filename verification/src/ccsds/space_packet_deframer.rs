//! Takes space packets apart.
use vstd::prelude::*;

use super::types::{FrameError, SpacePacketHeader};
use crate::fw::buffer::{Buffer, BufferView};
use crate::fw::bytes;
use crate::fw::decimal;
use crate::fw::outputs;
use crate::fw::text;
use crate::fw::types::{Apid, FrameContext, LogSeverity};

verus! {

/// `InvalidPacket`.
pub const EVENTID_INVALID_PACKET: u32 = 0;

/// `InvalidLength`.
pub const EVENTID_INVALID_LENGTH: u32 = 1;

/// Why a packet is refused.
#[derive(Debug, Clone, Copy, PartialEq, Eq, Structural)]
pub enum SpacePacketDeframerEvent {
    /// The packet has no data, or is of another version.
    InvalidPacket,
    /// The packet is shorter than its header says.
    InvalidLength {
        /// The length that the header gives.
        transmitted: u64,
        /// The length of what was received.
        actual: u64,
    },
}

impl SpacePacketDeframerEvent {
    /// The arguments on the wire.
    pub open spec fn wire(self) -> Seq<u8> {
        match self {
            SpacePacketDeframerEvent::InvalidPacket => Seq::empty(),
            SpacePacketDeframerEvent::InvalidLength { transmitted, actual } => bytes::be64(
                transmitted,
            ) + bytes::be64(actual),
        }
    }

    /// The error that is notified.
    pub open spec fn frame_error(self) -> FrameError {
        match self {
            SpacePacketDeframerEvent::InvalidPacket => FrameError::SpInvalidPacket,
            SpacePacketDeframerEvent::InvalidLength { .. } => FrameError::SpInvalidLength,
        }
    }

    /// The event identifier, relative to the component's base.
    pub fn id(&self) -> (r: u32)
        ensures
            r == (match self {
                SpacePacketDeframerEvent::InvalidPacket => EVENTID_INVALID_PACKET,
                SpacePacketDeframerEvent::InvalidLength { .. } => EVENTID_INVALID_LENGTH,
            }),
    {
        match self {
            SpacePacketDeframerEvent::InvalidPacket => EVENTID_INVALID_PACKET,
            SpacePacketDeframerEvent::InvalidLength { .. } => EVENTID_INVALID_LENGTH,
        }
    }

    /// How serious the event is.
    pub fn severity(&self) -> (r: LogSeverity)
        ensures
            r == LogSeverity::WarningHi,
    {
        LogSeverity::WarningHi
    }

    /// The arguments on the wire.
    pub fn args(&self) -> (r: Vec<u8>)
        ensures
            r@ == self.wire(),
    {
        let mut out: Vec<u8> = Vec::new();
        match self {
            SpacePacketDeframerEvent::InvalidPacket => {},
            SpacePacketDeframerEvent::InvalidLength { transmitted, actual } => {
                bytes::push_u64(&mut out, *transmitted);
                bytes::push_u64(&mut out, *actual);
            },
        }
        assert(out@ =~= self.wire());
        out
    }

    fn to_frame_error(&self) -> (r: FrameError)
        ensures
            r == self.frame_error(),
    {
        match self {
            SpacePacketDeframerEvent::InvalidPacket => FrameError::SpInvalidPacket,
            SpacePacketDeframerEvent::InvalidLength { .. } => FrameError::SpInvalidLength,
        }
    }
}

impl SpacePacketDeframerEvent {
    /// The text of the event.
    pub open spec fn spec_text(self) -> Seq<u8> {
        match self {
            SpacePacketDeframerEvent::InvalidPacket =>
                text::words("Malformed packet received refusing to deframe"@),
            SpacePacketDeframerEvent::InvalidLength { transmitted, actual } =>
                text::words("Invalid length received. Header specified packet byte size of "@)
                + decimal::digits(transmitted as nat)
                + text::words(" | Actual received data length: "@) + decimal::digits(actual as nat),
        }
    }

    /// The text of the event.
    pub fn text(&self) -> (r: Vec<u8>)
        ensures
            r@ == self.spec_text(),
    {
        match self {
            SpacePacketDeframerEvent::InvalidPacket => {
                text::begin("Malformed packet received refusing to deframe")
            },
            SpacePacketDeframerEvent::InvalidLength { transmitted, actual } => {
                let mut out: Vec<u8> = text::begin("Invalid length received. Header specified packet byte size of ");
                text::push_number(&mut out, *transmitted as u64);
                text::push_words(&mut out, " | Actual received data length: ");
                text::push_number(&mut out, *actual as u64);
                out
            },
        }
    }
}

/// A port call that the deframer makes. `D` is a buffer, or its view in contracts.
#[derive(Debug)]
pub enum SpacePacketDeframerAction<D = Buffer> {
    /// Report an event.
    Event(SpacePacketDeframerEvent),
    /// Notify an error.
    ErrorNotify(FrameError),
    /// Have a received sequence count checked.
    ValidateApidSeqCount { apid: Apid, sequence_count: u16 },
    /// Hand on the data field of a packet.
    DataOut { data: D, context: FrameContext },
    /// Give a buffer back.
    DataReturnOut { data: D, context: FrameContext },
}

impl View for SpacePacketDeframerAction<Buffer> {
    type V = SpacePacketDeframerAction<BufferView>;

    open spec fn view(&self) -> SpacePacketDeframerAction<BufferView> {
        match self {
            SpacePacketDeframerAction::Event(e) => SpacePacketDeframerAction::Event(*e),
            SpacePacketDeframerAction::ErrorNotify(e) => SpacePacketDeframerAction::ErrorNotify(*e),
            SpacePacketDeframerAction::ValidateApidSeqCount {
                apid,
                sequence_count,
            } => SpacePacketDeframerAction::ValidateApidSeqCount {
                apid: *apid,
                sequence_count: *sequence_count,
            },
            SpacePacketDeframerAction::DataOut { data, context } =>
                SpacePacketDeframerAction::DataOut { data: data@, context: *context },
            SpacePacketDeframerAction::DataReturnOut { data, context } =>
                SpacePacketDeframerAction::DataReturnOut { data: data@, context: *context },
        }
    }
}

/// Why a packet is refused, if it is. The type of the packet does not matter.
pub open spec fn packet_fault(packet: Seq<u8>) -> Option<SpacePacketDeframerEvent> {
    let header = SpacePacketHeader::at_start(packet);
    let available = packet.len() - SpacePacketHeader::SERIALIZED_SIZE;
    if available <= 0 || header.packet_identification / 0x2000 != 0 {
        Some(SpacePacketDeframerEvent::InvalidPacket)
    } else if header.packet_data_length + 1 > available {
        Some(
            SpacePacketDeframerEvent::InvalidLength {
                transmitted: (header.packet_data_length + 1) as u64,
                actual: available as u64,
            },
        )
    } else {
        None
    }
}

/// How many bytes the data field of a packet without fault has.
pub open spec fn data_length(packet: Seq<u8>) -> nat {
    (SpacePacketHeader::at_start(packet).packet_data_length + 1) as nat
}

/// What is known of a packet from its header, on top of `context`.
pub open spec fn packet_context(packet: Seq<u8>, context: FrameContext) -> FrameContext {
    let header = SpacePacketHeader::at_start(packet);
    FrameContext {
        apid: Apid::of_code((header.packet_identification % 0x800) as u16),
        has_sec_hdr: header.packet_identification / 0x800 % 2 == 1,
        sequence_flags: (header.packet_sequence_control / 0x4000) as u8,
        sequence_count: (header.packet_sequence_control % 0x4000) as u16,
        ..context
    }
}

/// What the deframer puts out for a packet.
pub open spec fn deframed(
    notify: bool,
    data: BufferView,
    context: FrameContext,
) -> Seq<SpacePacketDeframerAction<BufferView>> {
    match packet_fault(data.bytes()) {
        Some(event) => {
            let reported = seq![SpacePacketDeframerAction::<BufferView>::Event(event)];
            let notified = if notify {
                reported.push(SpacePacketDeframerAction::ErrorNotify(event.frame_error()))
            } else {
                reported
            };
            notified.push(SpacePacketDeframerAction::DataReturnOut { data, context })
        },
        None => {
            let known = packet_context(data.bytes(), context);
            seq![
                SpacePacketDeframerAction::ValidateApidSeqCount {
                    apid: known.apid,
                    sequence_count: known.sequence_count,
                },
                SpacePacketDeframerAction::DataOut {
                    data: data.window(
                        SpacePacketHeader::SERIALIZED_SIZE as nat,
                        data_length(data.bytes()),
                    ),
                    context: known,
                },
            ]
        },
    }
}

/// Takes space packets apart: hands on the data field in the same buffer, with what the
/// header says in the context.
#[derive(Debug, Clone, Copy, PartialEq, Eq, Structural)]
pub struct SpacePacketDeframer {
    /// Whether anyone listens for errors.
    pub error_notify_connected: bool,
}

impl SpacePacketDeframer {
    /// A deframer; nobody listens for errors yet.
    pub fn new() -> (r: Self)
        ensures
            !r.error_notify_connected,
    {
        SpacePacketDeframer { error_notify_connected: false }
    }

    /// Notes that someone listens for errors.
    pub fn connect_error_notify(&mut self)
        ensures
            final(self).error_notify_connected,
    {
        self.error_notify_connected = true;
    }

    fn reject(
        &self,
        event: SpacePacketDeframerEvent,
        data: Buffer,
        context: &FrameContext,
        out: &mut Vec<SpacePacketDeframerAction>,
    )
        requires
            packet_fault(data@.bytes()) == Some(event),
        ensures
            outputs::views(final(out)@) == outputs::views(old(out)@) + deframed(
                self.error_notify_connected,
                data@,
                *context,
            ),
    {
        let ghost before = outputs::views(out@);
        let ghost view = data@;
        outputs::emit(out, SpacePacketDeframerAction::Event(event));
        if self.error_notify_connected {
            outputs::emit(out, SpacePacketDeframerAction::ErrorNotify(event.to_frame_error()));
        }
        outputs::emit(out, SpacePacketDeframerAction::DataReturnOut { data, context: *context });
        assert(outputs::views(out@) =~= before + deframed(
            self.error_notify_connected,
            view,
            *context,
        ));
    }

    /// A packet arrives.
    pub fn data_in(
        &self,
        data: Buffer,
        context: &FrameContext,
        out: &mut Vec<SpacePacketDeframerAction>,
    )
        ensures
            outputs::views(final(out)@) == outputs::views(old(out)@) + deframed(
                self.error_notify_connected,
                data@,
                *context,
            ),
    {
        let ghost before = outputs::views(out@);
        let ghost view = data@;
        let size: usize = data.size();
        let packet: Vec<u8> = data.to_vec();
        if size <= SpacePacketHeader::SERIALIZED_SIZE {
            self.reject(SpacePacketDeframerEvent::InvalidPacket, data, context, out);
            return;
        }
        let header: SpacePacketHeader = match SpacePacketHeader::deserialize(packet.as_slice()) {
            Ok(header) => header,
            Err(_) => {
                return;
            },
        };
        if header.pvn() != 0 {
            self.reject(SpacePacketDeframerEvent::InvalidPacket, data, context, out);
            return;
        }
        let pkt_length: u32 = header.data_field_length();
        let available: usize = size - SpacePacketHeader::SERIALIZED_SIZE;
        if pkt_length as u64 > available as u64 {
            self.reject(
                SpacePacketDeframerEvent::InvalidLength {
                    transmitted: pkt_length as u64,
                    actual: available as u64,
                },
                data,
                context,
                out,
            );
            return;
        }
        let apid: Apid = Apid::from_repr(header.apid_value());
        let sequence_count: u16 = header.sequence_count();
        let mut known: FrameContext = *context;
        known.apid = apid;
        known.has_sec_hdr = header.has_sec_hdr();
        known.sequence_flags = header.sequence_flags();
        known.sequence_count = sequence_count;
        outputs::emit(
            out,
            SpacePacketDeframerAction::ValidateApidSeqCount { apid, sequence_count },
        );
        let data = data.narrowed(SpacePacketHeader::SERIALIZED_SIZE, pkt_length as usize);
        outputs::emit(out, SpacePacketDeframerAction::DataOut { data, context: known });
        assert(outputs::views(out@) =~= before + deframed(
            self.error_notify_connected,
            view,
            *context,
        ));
    }

    /// A data field comes back; it is passed on upstream.
    pub fn data_return_in(
        &self,
        data: Buffer,
        context: &FrameContext,
        out: &mut Vec<SpacePacketDeframerAction>,
    )
        ensures
            outputs::views(final(out)@) == outputs::views(old(out)@).push(
                SpacePacketDeframerAction::DataReturnOut { data: data@, context: *context },
            ),
    {
        outputs::emit(out, SpacePacketDeframerAction::DataReturnOut { data, context: *context });
    }
}

/// No buffer gets lost: whatever arrives leaves again exactly once, handed on or given
/// back, in the same storage.
pub proof fn law_deframer_keeps_buffers(notify: bool, data: BufferView, context: FrameContext)
    ensures
        ({
            let out = deframed(notify, data, context);
            let last = out[out.len() - 1];
            &&& out.len() >= 2
            &&& match last {
                SpacePacketDeframerAction::DataOut { data: d, .. } => d.storage == data.storage
                    && d.context == data.context,
                SpacePacketDeframerAction::DataReturnOut { data: d, context: c } => d == data && c
                    == context,
                _ => false,
            }
            &&& forall|i: int|
                0 <= i < out.len() - 1 ==> !((#[trigger] out[i]) is DataOut) && !(
                out[i] is DataReturnOut)
        }),
{
}

/// A packet is taken when it is longer than its header, is of the first version of the
/// protocol, and holds as many bytes behind the header as this says, less one, in its last two
/// bytes; and only then. What is wrong with any other is reported.
pub proof fn law_which_packets_are_taken(packet: Seq<u8>)
    ensures
        ({
            let length = packet[4] * 256 + packet[5] + 1;
            let begun = packet.len() > 6 && packet[0] / 32 == 0;
            packet_fault(packet) == if !begun {
                Some(SpacePacketDeframerEvent::InvalidPacket)
            } else if length > packet.len() - 6 {
                Some(
                    SpacePacketDeframerEvent::InvalidLength {
                        transmitted: length as u64,
                        actual: (packet.len() - 6) as u64,
                    },
                )
            } else {
                None
            }
        }),
{
}

/// What the header says goes on beside the data: the application in the last eleven bits of
/// the first two bytes, whether there is a secondary header in the bit before them, the
/// segmentation in the first two bits of the next two bytes and the sequence count in the
/// others. All else in the context stays as it was.
pub proof fn law_what_the_header_says(packet: Seq<u8>, context: FrameContext)
    ensures
        packet_context(packet, context) == (FrameContext {
            apid: Apid::of_code(((packet[0] % 8) * 256 + packet[1]) as u16),
            has_sec_hdr: packet[0] / 8 % 2 == 1,
            sequence_flags: (packet[2] / 64) as u8,
            sequence_count: ((packet[2] % 64) * 256 + packet[3]) as u16,
            ..context
        }),
{
}

/// Of a packet that is taken the bytes behind the header are handed on, in the same storage,
/// after its sequence count went to be validated. One that is refused is reported, notified
/// to whoever listens, and given back as it came.
pub proof fn law_what_becomes_of_a_packet(notify: bool, data: BufferView, context: FrameContext)
    requires
        data.wf(),
    ensures
        ({
            let out = deframed(notify, data, context);
            let packet = data.storage.subrange(
                data.offset as int,
                (data.offset + data.size) as int,
            );
            let length = packet[4] * 256 + packet[5] + 1;
            let known = packet_context(packet, context);
            match packet_fault(packet) {
                None => {
                    &&& out.len() == 2
                    &&& out[0] == SpacePacketDeframerAction::<BufferView>::ValidateApidSeqCount {
                        apid: known.apid,
                        sequence_count: known.sequence_count,
                    }
                    &&& out[1] matches SpacePacketDeframerAction::DataOut { data: field, context: c }
                    &&& c == known
                    &&& field.storage == data.storage
                    &&& field.context == data.context
                    &&& field.offset == data.offset + 6
                    &&& field.size == length
                    &&& field.storage.subrange(
                        field.offset as int,
                        (field.offset + field.size) as int,
                    ) == packet.subrange(6, 6 + length)
                },
                Some(event) => {
                    let error = if event is InvalidPacket {
                        FrameError::SpInvalidPacket
                    } else {
                        FrameError::SpInvalidLength
                    };
                    let back = SpacePacketDeframerAction::DataReturnOut { data, context };
                    if notify {
                        out == seq![
                            SpacePacketDeframerAction::Event(event),
                            SpacePacketDeframerAction::ErrorNotify(error),
                            back,
                        ]
                    } else {
                        out == seq![SpacePacketDeframerAction::Event(event), back]
                    }
                },
            }
        }),
{
    let out = deframed(notify, data, context);
    let packet = data.bytes();
    let length = packet[4] * 256 + packet[5] + 1;
    match packet_fault(packet) {
        None => {
            let field = out[1]->DataOut_data;
            assert(field.storage.subrange(
                field.offset as int,
                (field.offset + field.size) as int,
            ) =~= packet.subrange(6, 6 + length));
        },
        Some(event) => {
            let back = SpacePacketDeframerAction::DataReturnOut { data, context };
            let notified = SpacePacketDeframerAction::<BufferView>::ErrorNotify(
                event.frame_error(),
            );
            assert(seq![SpacePacketDeframerAction::Event(event), back] =~= seq![
                SpacePacketDeframerAction::Event(event),
            ].push(back));
            assert(seq![SpacePacketDeframerAction::Event(event), notified, back] =~= seq![
                SpacePacketDeframerAction::Event(event),
            ].push(notified).push(back));
        },
    }
}

/// A packet that does not fit is reported with the length it gives and then what was received,
/// in eight bytes each; one that is no packet without arguments.
pub proof fn law_refusals_on_the_wire(e: SpacePacketDeframerEvent)
    ensures
        ({
            let w = e.wire();
            match e {
                SpacePacketDeframerEvent::InvalidPacket => w.len() == 0,
                SpacePacketDeframerEvent::InvalidLength { transmitted, actual } => {
                    &&& w.len() == 16
                    &&& w.take(8) == bytes::be64(transmitted)
                    &&& w.skip(8) == bytes::be64(actual)
                },
            }
        }),
{
    match e {
        SpacePacketDeframerEvent::InvalidLength { transmitted, actual } => {
            bytes::law_most_significant_of_eight_first(transmitted);
            bytes::law_most_significant_of_eight_first(actual);
            assert(e.wire().take(8) =~= bytes::be64(transmitted));
            assert(e.wire().skip(8) =~= bytes::be64(actual));
        },
        _ => {},
    }
}

} // verus!
