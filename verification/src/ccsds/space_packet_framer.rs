//! Wraps payloads in space packets.
use vstd::prelude::*;

use super::space_packet_deframer;
use super::types;
use super::types::SpacePacketHeader;
use crate::fw::buffer::{Buffer, BufferView};
use crate::fw::bytes;
use crate::fw::outputs;
use crate::fw::text;
use crate::fw::throttle::EventThrottle;
use crate::fw::types::{FrameContext, LogSeverity, Success};

verus! {

/// `NoBufferAvailable`.
pub const EVENTID_NO_BUFFER_AVAILABLE: u32 = 0;

/// How many times `NoBufferAvailable` is reported.
pub const EVENTID_NO_BUFFER_AVAILABLE_THROTTLE: u32 = 5;

/// A port call that the framer makes. `D` is a buffer, or its view in contracts.
#[derive(Debug)]
pub enum SpacePacketFramerAction<D = Buffer> {
    /// Report that there is no buffer for a packet.
    NoBufferAvailable,
    /// Give a buffer back to the allocator.
    BufferDeallocate { data: D },
    /// Send a packet.
    DataOut { data: D, context: FrameContext },
    /// Give a payload back.
    DataReturnOut { data: D, context: FrameContext },
    /// Pass a status on.
    ComStatusOut { condition: Success },
}

impl View for SpacePacketFramerAction<Buffer> {
    type V = SpacePacketFramerAction<BufferView>;

    open spec fn view(&self) -> SpacePacketFramerAction<BufferView> {
        match self {
            SpacePacketFramerAction::NoBufferAvailable => SpacePacketFramerAction::NoBufferAvailable,
            SpacePacketFramerAction::BufferDeallocate { data } =>
                SpacePacketFramerAction::BufferDeallocate { data: data@ },
            SpacePacketFramerAction::DataOut { data, context } => SpacePacketFramerAction::DataOut {
                data: data@,
                context: *context,
            },
            SpacePacketFramerAction::DataReturnOut { data, context } =>
                SpacePacketFramerAction::DataReturnOut { data: data@, context: *context },
            SpacePacketFramerAction::ComStatusOut { condition } =>
                SpacePacketFramerAction::ComStatusOut { condition: *condition },
        }
    }
}

/// The event identifier of `NoBufferAvailable`, and how serious it is; it has no
/// arguments.
pub fn no_buffer_available_event() -> (r: (u32, LogSeverity))
    ensures
        r.0 == EVENTID_NO_BUFFER_AVAILABLE,
        r.1 == LogSeverity::WarningHi,
{
    (EVENTID_NO_BUFFER_AVAILABLE, LogSeverity::WarningHi)
}

/// The text of `NoBufferAvailable`.
pub fn no_buffer_available_text() -> (r: Vec<u8>)
    ensures
        r@ == text::words("Failed to allocate a packet buffer: packet dropped"@),
{
    text::begin("Failed to allocate a packet buffer: packet dropped")
}

/// The header of the packet that carries `length` bytes.
pub open spec fn packet_header(
    context: FrameContext,
    sequence_count: u16,
    length: nat,
) -> SpacePacketHeader {
    SpacePacketHeader {
        packet_identification: SpacePacketHeader::identification(
            0,
            0,
            context.has_sec_hdr,
            context.apid.code(),
        ),
        packet_sequence_control: SpacePacketHeader::sequence_control(
            context.sequence_flags,
            sequence_count,
        ),
        packet_data_length: (length - 1) as u16,
    }
}

/// The packet that carries `payload`.
pub open spec fn packet_bytes(
    context: FrameContext,
    sequence_count: u16,
    payload: Seq<u8>,
) -> Seq<u8> {
    packet_header(context, sequence_count, payload.len()).wire() + payload
}

/// Whether the buffer that came from the allocator takes the packet.
pub open spec fn fits(data: BufferView, frame_buffer: BufferView) -> bool {
    frame_buffer.valid() && frame_buffer.size >= SpacePacketHeader::SERIALIZED_SIZE + data.size
}

/// What the framer puts out for a payload.
pub open spec fn framed(
    throttle: EventThrottle,
    data: BufferView,
    context: FrameContext,
    frame_buffer: BufferView,
    sequence_count: u16,
) -> Seq<SpacePacketFramerAction<BufferView>> {
    if fits(data, frame_buffer) {
        seq![
            SpacePacketFramerAction::DataOut {
                data: frame_buffer.overwritten(
                    packet_bytes(context, sequence_count, data.bytes()),
                ),
                context,
            },
            SpacePacketFramerAction::DataReturnOut { data, context },
        ]
    } else {
        let reported = if throttle.open() {
            seq![SpacePacketFramerAction::<BufferView>::NoBufferAvailable]
        } else {
            Seq::empty()
        };
        let released = if frame_buffer.valid() {
            reported.push(SpacePacketFramerAction::BufferDeallocate { data: frame_buffer })
        } else {
            reported
        };
        released.push(SpacePacketFramerAction::DataReturnOut { data, context })
    }
}

/// The limit on the reports that there is no buffer, after a payload.
pub open spec fn throttle_after(
    throttle: EventThrottle,
    data: BufferView,
    frame_buffer: BufferView,
) -> EventThrottle {
    if fits(data, frame_buffer) {
        throttle
    } else {
        throttle.tried()
    }
}

/// Wraps payloads in space packets, in buffers of an allocator.
#[derive(Debug, Clone, Copy, PartialEq, Eq, Structural)]
pub struct SpacePacketFramer {
    /// Whether anyone listens for the status.
    pub com_status_connected: bool,
    /// Limits the reports that there is no buffer.
    pub no_buffer_available_throttle: EventThrottle,
}

impl SpacePacketFramer {
    /// A framer; nobody listens for the status yet.
    pub fn new() -> (r: Self)
        ensures
            !r.com_status_connected,
            r.no_buffer_available_throttle == (EventThrottle {
                limit: EVENTID_NO_BUFFER_AVAILABLE_THROTTLE,
                count: 0,
            }),
    {
        SpacePacketFramer {
            com_status_connected: false,
            no_buffer_available_throttle: EventThrottle::new(EVENTID_NO_BUFFER_AVAILABLE_THROTTLE),
        }
    }

    /// Notes that someone listens for the status.
    pub fn connect_com_status(&mut self)
        ensures
            *final(self) == (SpacePacketFramer { com_status_connected: true, ..*old(self) }),
    {
        self.com_status_connected = true;
    }

    /// Lets `NoBufferAvailable` be reported again.
    pub fn clear_no_buffer_available_throttle(&mut self)
        ensures
            *final(self) == (SpacePacketFramer {
                no_buffer_available_throttle: old(self).no_buffer_available_throttle.cleared(),
                ..*old(self)
            }),
    {
        self.no_buffer_available_throttle.clear();
    }

    /// How large a buffer has to be asked for.
    pub fn frame_size(data: &Buffer) -> (r: u64)
        requires
            data@.size <= u32::MAX - SpacePacketHeader::SERIALIZED_SIZE,
        ensures
            r == SpacePacketHeader::SERIALIZED_SIZE + data@.size,
    {
        data.size() as u64 + SpacePacketHeader::SERIALIZED_SIZE as u64
    }

    /// Whether the buffer that came from the allocator takes the packet, so that a
    /// sequence count has to be asked for.
    pub fn takes_packet(data: &Buffer, frame_buffer: &Buffer) -> (r: bool)
        ensures
            r == fits(data@, frame_buffer@),
    {
        let size: usize = data.size();
        frame_buffer.is_valid() && frame_buffer.size() >= SpacePacketHeader::SERIALIZED_SIZE
            && frame_buffer.size() - SpacePacketHeader::SERIALIZED_SIZE >= size
    }

    /// A payload arrives. `frame_buffer` is what the allocator gave for it, and
    /// `sequence_count` the count that was handed out where that buffer takes the packet.
    pub fn data_in(
        &mut self,
        data: Buffer,
        context: &FrameContext,
        frame_buffer: Buffer,
        sequence_count: u16,
        out: &mut Vec<SpacePacketFramerAction>,
    )
        requires
            0 < data@.size,
            fits(data@, frame_buffer@) ==> data@.size <= u16::MAX && context.apid.code() < 0x800,
        ensures
            outputs::views(final(out)@) == outputs::views(old(out)@) + framed(
                old(self).no_buffer_available_throttle,
                data@,
                *context,
                frame_buffer@,
                sequence_count,
            ),
            *final(self) == (SpacePacketFramer {
                no_buffer_available_throttle: if fits(data@, frame_buffer@) {
                    old(self).no_buffer_available_throttle
                } else {
                    old(self).no_buffer_available_throttle.tried()
                },
                ..*old(self)
            }),
            final(self).no_buffer_available_throttle == throttle_after(
                old(self).no_buffer_available_throttle,
                data@,
                frame_buffer@,
            ),
    {
        let ghost before = outputs::views(out@);
        let ghost payload = data@;
        let ghost frame = frame_buffer@;
        let ghost throttle = self.no_buffer_available_throttle;
        if !Self::takes_packet(&data, &frame_buffer) {
            if self.no_buffer_available_throttle.should_emit() {
                outputs::emit(out, SpacePacketFramerAction::NoBufferAvailable);
            }
            if frame_buffer.is_valid() {
                outputs::emit(
                    out,
                    SpacePacketFramerAction::BufferDeallocate { data: frame_buffer },
                );
            }
            outputs::emit(out, SpacePacketFramerAction::DataReturnOut { data, context: *context });
            assert(outputs::views(out@) =~= before + framed(
                throttle,
                payload,
                *context,
                frame,
                sequence_count,
            ));
            return;
        }
        let bytes_in: Vec<u8> = data.to_vec();
        let size: usize = data.size();
        let header = SpacePacketHeader::new(
            SpacePacketHeader::build_packet_identification(
                0,
                0,
                context.has_sec_hdr,
                context.apid.as_repr(),
            ),
            SpacePacketHeader::build_packet_sequence_control(
                context.sequence_flags,
                sequence_count,
            ),
            SpacePacketHeader::length_token(size as u16),
        );
        let mut packet: Vec<u8> = header.serialize();
        bytes::push_bytes(&mut packet, bytes_in.as_slice());
        assert(packet@ =~= packet_bytes(*context, sequence_count, payload.bytes()));
        let packet_buffer = frame_buffer.overwritten(packet.as_slice());
        outputs::emit(
            out,
            SpacePacketFramerAction::DataOut { data: packet_buffer, context: *context },
        );
        outputs::emit(out, SpacePacketFramerAction::DataReturnOut { data, context: *context });
        assert(outputs::views(out@) =~= before + framed(
            throttle,
            payload,
            *context,
            frame,
            sequence_count,
        ));
    }

    /// A packet comes back; its buffer goes back to the allocator.
    pub fn data_return_in(&self, frame_buffer: Buffer, out: &mut Vec<SpacePacketFramerAction>)
        ensures
            outputs::views(final(out)@) == outputs::views(old(out)@).push(
                SpacePacketFramerAction::BufferDeallocate { data: frame_buffer@ },
            ),
    {
        outputs::emit(out, SpacePacketFramerAction::BufferDeallocate { data: frame_buffer });
    }

    /// A status arrives; it is passed on, if anyone listens.
    pub fn com_status_in(&self, condition: Success, out: &mut Vec<SpacePacketFramerAction>)
        ensures
            outputs::views(final(out)@) == (if self.com_status_connected {
                outputs::views(old(out)@).push(SpacePacketFramerAction::ComStatusOut { condition })
            } else {
                outputs::views(old(out)@)
            }),
    {
        if self.com_status_connected {
            outputs::emit(out, SpacePacketFramerAction::ComStatusOut { condition });
        }
    }
}

/// Taking apart a packet that was framed, whatever follows it, gives back the payload
/// and the context: application and secondary header flag as they were, segmentation
/// flags and sequence count cut to their fields.
pub proof fn law_space_packet_round_trip(
    context: FrameContext,
    sequence_count: u16,
    payload: Seq<u8>,
    trailing: Seq<u8>,
    received: FrameContext,
)
    requires
        0 < payload.len() <= u16::MAX,
        context.apid.code() < 0x800,
    ensures
        ({
            let packet = packet_bytes(context, sequence_count, payload) + trailing;
            let size = SpacePacketHeader::SERIALIZED_SIZE as int;
            let n = space_packet_deframer::data_length(packet) as int;
            &&& space_packet_deframer::packet_fault(packet) is None
            &&& packet.subrange(size, size + n) == payload
            &&& space_packet_deframer::packet_context(packet, received) == FrameContext {
                apid: context.apid,
                has_sec_hdr: context.has_sec_hdr,
                sequence_flags: (context.sequence_flags % 4) as u8,
                sequence_count: (sequence_count % 0x4000) as u16,
                ..received
            }
        }),
{
    let header = packet_header(context, sequence_count, payload.len());
    let packet = packet_bytes(context, sequence_count, payload) + trailing;
    types::law_space_packet_header_round_trip(header, payload + trailing);
    assert(packet =~= header.wire() + (payload + trailing));
    types::law_identification_round_trip(0, 0, context.has_sec_hdr, context.apid.code());
    types::law_sequence_control_round_trip(context.sequence_flags, sequence_count);
    crate::fw::types::law_apid_round_trip(context.apid, context.apid);
    let size = SpacePacketHeader::SERIALIZED_SIZE as int;
    assert(packet.subrange(size, size + payload.len()) =~= payload);
}

/// No buffer gets lost: a payload is given back exactly once, as it came, after everything
/// else. The buffer that the allocator gave for the packet either leaves with the packet
/// or goes back to the allocator, never both.
pub proof fn law_framer_keeps_buffers(
    throttle: EventThrottle,
    data: BufferView,
    context: FrameContext,
    frame_buffer: BufferView,
    sequence_count: u16,
)
    requires
        data.wf(),
        frame_buffer.wf(),
    ensures
        ({
            let out = framed(throttle, data, context, frame_buffer, sequence_count);
            let n = out.len() as int;
            &&& n >= 1
            &&& out.last() == SpacePacketFramerAction::DataReturnOut { data, context }
            &&& forall|i: int| 0 <= i < n - 1 ==> !((#[trigger] out[i]) is DataReturnOut)
            &&& frame_buffer.valid() ==> n >= 2 && match out[n - 2] {
                SpacePacketFramerAction::DataOut { data: d, .. } => fits(data, frame_buffer)
                    && d.bytes() == packet_bytes(context, sequence_count, data.bytes())
                    && d.storage.len() == frame_buffer.storage.len() && d.context
                    == frame_buffer.context,
                SpacePacketFramerAction::BufferDeallocate { data: d } => !fits(
                    data,
                    frame_buffer,
                ) && d == frame_buffer,
                _ => false,
            }
            &&& forall|i: int|
                0 <= i < n - 2 ==> !((#[trigger] out[i]) is DataOut) && !(
                out[i] is BufferDeallocate)
            &&& !frame_buffer.valid() ==> forall|i: int|
                0 <= i < n ==> !((#[trigger] out[i]) is DataOut) && !(out[i] is BufferDeallocate)
        }),
{
    if fits(data, frame_buffer) {
        crate::fw::buffer::law_overwritten_shows_data(
            frame_buffer,
            packet_bytes(context, sequence_count, data.bytes()),
        );
    }
}

/// The packet of a payload is the payload behind six bytes: the application and whether there
/// is a secondary header, the segmentation and the sequence count, and the length of the
/// payload, less one.
pub proof fn law_packet_layout(context: FrameContext, sequence_count: u16, payload: Seq<u8>)
    requires
        0 < payload.len() <= 65536,
        context.apid.code() < 0x800,
    ensures
        ({
            let packet = packet_bytes(context, sequence_count, payload);
            &&& packet.len() == 6 + payload.len()
            &&& packet[0] * 256 + packet[1] == context.apid.code() + if context.has_sec_hdr {
                2048int
            } else {
                0int
            }
            &&& packet[2] * 256 + packet[3] == (context.sequence_flags % 4) * 16384
                + sequence_count % 16384
            &&& packet[4] * 256 + packet[5] == payload.len() - 1
            &&& packet.subrange(6, 6 + payload.len() as int) == payload
        }),
{
    let packet = packet_bytes(context, sequence_count, payload);
    assert(packet.subrange(6, 6 + payload.len() as int) =~= payload);
}

/// A payload whose packet fits in the buffer that was given goes out in it as a packet, in
/// whatever place its window starts, and comes back itself. One whose packet does not is
/// dropped: it comes back after a report, while the limit allows, and a buffer that is too
/// small goes back too.
pub proof fn law_what_becomes_of_a_payload(
    throttle: EventThrottle,
    data: BufferView,
    context: FrameContext,
    frame_buffer: BufferView,
    sequence_count: u16,
)
    requires
        data.wf(),
        frame_buffer.wf(),
        0 < data.size,
    ensures
        ({
            let out = framed(throttle, data, context, frame_buffer, sequence_count);
            let back = SpacePacketFramerAction::DataReturnOut { data, context };
            let payload = data.storage.subrange(
                data.offset as int,
                (data.offset + data.size) as int,
            );
            let given = frame_buffer.storage.len() > 0;
            let allowed = throttle.count < throttle.limit;
            if given && data.size + 6 <= frame_buffer.size {
                &&& out.len() == 2
                &&& out[0] matches SpacePacketFramerAction::DataOut { data: packet, context: c }
                &&& c == context
                &&& packet.context == frame_buffer.context
                &&& packet.offset == frame_buffer.offset
                &&& packet.storage.len() == frame_buffer.storage.len()
                &&& packet.storage.subrange(
                    packet.offset as int,
                    (packet.offset + packet.size) as int,
                ) == packet_bytes(context, sequence_count, payload)
                &&& out[1] == back
            } else if given && allowed {
                out == seq![
                    SpacePacketFramerAction::NoBufferAvailable,
                    SpacePacketFramerAction::BufferDeallocate { data: frame_buffer },
                    back,
                ]
            } else if given {
                out == seq![SpacePacketFramerAction::BufferDeallocate { data: frame_buffer }, back]
            } else if allowed {
                out == seq![SpacePacketFramerAction::NoBufferAvailable, back]
            } else {
                out == seq![back]
            }
        }),
{
    let out = framed(throttle, data, context, frame_buffer, sequence_count);
    let back = SpacePacketFramerAction::DataReturnOut { data, context };
    if fits(data, frame_buffer) {
        crate::fw::buffer::law_overwritten_shows_data(
            frame_buffer,
            packet_bytes(context, sequence_count, data.bytes()),
        );
    } else {
        let freed = SpacePacketFramerAction::BufferDeallocate { data: frame_buffer };
        let none = SpacePacketFramerAction::<BufferView>::NoBufferAvailable;
        assert(seq![none, freed, back] =~= seq![none].push(freed).push(back));
        assert(seq![freed, back] =~= Seq::empty().push(freed).push(back));
        assert(seq![none, back] =~= seq![none].push(back));
        assert(seq![back] =~= Seq::empty().push(back));
    }
}

/// Only a payload that is dropped counts against the limit on reports, and only up to the limit.
pub proof fn law_dropped_payloads_count(
    throttle: EventThrottle,
    data: BufferView,
    frame_buffer: BufferView,
)
    ensures
        ({
            let after = throttle_after(throttle, data, frame_buffer);
            let dropped = frame_buffer.storage.len() == 0 || frame_buffer.size < data.size + 6;
            &&& after.limit == throttle.limit
            &&& after.count == throttle.count + if dropped && throttle.count < throttle.limit {
                1int
            } else {
                0int
            }
        }),
{
}

} // verus!
