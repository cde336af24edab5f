//! Builds telemetry transfer frames of a fixed size.
use vstd::prelude::*;

use super::crc16;
use super::crc16::Crc16;
use super::space_packet_deframer;
use super::space_packet_framer;
use super::types;
use super::types::{SpacePacketHeader, TMHeader, SPACECRAFT_ID, TM_FRAME_FIXED_SIZE};
use crate::fw::buffer::{Buffer, BufferView, NO_CONTEXT};
use crate::fw::bytes;
use crate::fw::outputs;
use crate::fw::types::{Apid, FrameContext, Success};

verus! {

/// What idle data is filled with.
pub const IDLE_DATA_PATTERN: u8 = 0x44;

/// Where the trailer starts; the checksum covers what comes before.
pub const TRAILER_OFFSET: usize = 1022;

/// How large the data field is.
pub const TM_PAYLOAD_CAPACITY: usize = 1016;

/// The smallest idle packet: a header and one byte.
pub const MIN_IDLE_PACKET_SIZE: usize = 7;

/// The largest payload that leaves room for an idle packet.
pub const MAX_PAYLOAD_SIZE: usize = 1009;

/// The segment length identifier that the link protocol asks for.
pub const SEGMENT_LENGTH_ID: u8 = 0x3;

/// The segmentation flags of an idle packet.
pub const IDLE_SEQUENCE_FLAGS: u8 = 0x3;

/// A port call that the framer makes. `D` is a buffer, or its view in contracts.
#[derive(Debug)]
pub enum TmFramerAction<D = Buffer> {
    /// Send a frame.
    DataOut { data: D, context: FrameContext },
    /// Give a payload back.
    DataReturnOut { data: D, context: FrameContext },
    /// Pass a status on.
    ComStatusOut { condition: Success },
}

impl View for TmFramerAction<Buffer> {
    type V = TmFramerAction<BufferView>;

    open spec fn view(&self) -> TmFramerAction<BufferView> {
        match self {
            TmFramerAction::DataOut { data, context } => TmFramerAction::DataOut {
                data: data@,
                context: *context,
            },
            TmFramerAction::DataReturnOut { data, context } => TmFramerAction::DataReturnOut {
                data: data@,
                context: *context,
            },
            TmFramerAction::ComStatusOut { condition } => TmFramerAction::ComStatusOut {
                condition: *condition,
            },
        }
    }
}

/// The header of a frame.
pub open spec fn frame_header(vc_id: u8, master_count: u8, virtual_count: u8) -> TMHeader {
    TMHeader {
        global_vc_id: TMHeader::channel_word(SPACECRAFT_ID, vc_id, false),
        master_frame_count: master_count,
        virtual_frame_count: virtual_count,
        data_field_status: TMHeader::status_word(false, false, false, SEGMENT_LENGTH_ID, 0),
    }
}

/// The header of an idle packet of `size` bytes.
pub open spec fn idle_header(size: nat) -> SpacePacketHeader {
    SpacePacketHeader {
        packet_identification: Apid::SppIdlePacket.code(),
        packet_sequence_control: SpacePacketHeader::sequence_control(IDLE_SEQUENCE_FLAGS, 0),
        packet_data_length: (size - MIN_IDLE_PACKET_SIZE) as u16,
    }
}

/// An idle packet of `size` bytes.
pub open spec fn idle_packet(size: nat) -> Seq<u8> {
    idle_header(size).wire() + Seq::new(
        (size - SpacePacketHeader::SERIALIZED_SIZE) as nat,
        |i: int| IDLE_DATA_PATTERN,
    )
}

/// A frame up to its trailer: header, payload, and an idle packet that fills the rest.
pub open spec fn covered_bytes(
    vc_id: u8,
    master_count: u8,
    virtual_count: u8,
    payload: Seq<u8>,
) -> Seq<u8> {
    frame_header(vc_id, master_count, virtual_count).wire() + payload + idle_packet(
        (TM_PAYLOAD_CAPACITY - payload.len()) as nat,
    )
}

/// A frame.
pub open spec fn frame_bytes(
    vc_id: u8,
    master_count: u8,
    virtual_count: u8,
    payload: Seq<u8>,
) -> Seq<u8> {
    let covered = covered_bytes(vc_id, master_count, virtual_count, payload);
    covered + bytes::be16(crc16::crc16(covered))
}

/// The count of frames after one more.
pub open spec fn next_frame_count(count: u8) -> u8 {
    if count == 0xFF {
        0
    } else {
        (count + 1) as u8
    }
}

/// Builds telemetry transfer frames, one at a time, in a buffer of its own.
#[derive(Debug)]
pub struct TmFramer {
    com_status_connected: bool,
    frame_storage: Option<Vec<u8>>,
    master_frame_count: u8,
    virtual_frame_count: u8,
}

/// The state of a framer.
#[verifier::ext_equal]
pub struct TmFramerState {
    /// Whether anyone listens for the status.
    pub com_status_connected: bool,
    /// Whether the frame buffer is here, and not on its way.
    pub owns_buffer: bool,
    /// The count of frames on the link.
    pub master_frame_count: u8,
    /// The count of frames on the virtual channel.
    pub virtual_frame_count: u8,
}

impl TmFramerState {
    /// The state after a frame was sent.
    pub open spec fn sent(self) -> TmFramerState {
        TmFramerState {
            owns_buffer: false,
            master_frame_count: next_frame_count(self.master_frame_count),
            virtual_frame_count: next_frame_count(self.virtual_frame_count),
            ..self
        }
    }
}

impl View for TmFramer {
    type V = TmFramerState;

    closed spec fn view(&self) -> TmFramerState {
        TmFramerState {
            com_status_connected: self.com_status_connected,
            owns_buffer: self.frame_storage is Some,
            master_frame_count: self.master_frame_count,
            virtual_frame_count: self.virtual_frame_count,
        }
    }
}

impl TmFramer {
    /// A framer with its frame buffer; nobody listens for the status yet.
    pub fn new() -> (r: Self)
        ensures
            r@ == (TmFramerState {
                com_status_connected: false,
                owns_buffer: true,
                master_frame_count: 0,
                virtual_frame_count: 0,
            }),
    {
        TmFramer {
            com_status_connected: false,
            frame_storage: Some(Buffer::allocate(TM_FRAME_FIXED_SIZE).into_storage()),
            master_frame_count: 0,
            virtual_frame_count: 0,
        }
    }

    /// Notes that someone listens for the status.
    pub fn connect_com_status(&mut self)
        ensures
            final(self)@ == (TmFramerState { com_status_connected: true, ..old(self)@ }),
    {
        self.com_status_connected = true;
    }

    /// Whether the frame buffer is here.
    pub fn owns_frame_buffer(&self) -> (r: bool)
        ensures
            r == self@.owns_buffer,
    {
        self.frame_storage.is_some()
    }

    /// Appends an idle packet that fills a frame up to its trailer.
    fn fill_with_idle_packet(frame: &mut Vec<u8>)
        requires
            SpacePacketHeader::SERIALIZED_SIZE <= old(frame)@.len() <= TRAILER_OFFSET
                - MIN_IDLE_PACKET_SIZE,
        ensures
            final(frame)@ == old(frame)@ + idle_packet((TRAILER_OFFSET - old(frame)@.len()) as nat),
    {
        let ghost before = frame@;
        let start: usize = frame.len();
        let size: usize = TRAILER_OFFSET - start;
        let header = SpacePacketHeader::new(
            Apid::SppIdlePacket.as_repr(),
            SpacePacketHeader::build_packet_sequence_control(IDLE_SEQUENCE_FLAGS, 0),
            (size - SpacePacketHeader::SERIALIZED_SIZE - 1) as u16,
        );
        let head: Vec<u8> = header.serialize();
        bytes::push_bytes(frame, head.as_slice());
        let ghost front = frame@;
        let mut i: usize = start + SpacePacketHeader::SERIALIZED_SIZE;
        while i < TRAILER_OFFSET
            invariant
                start + SpacePacketHeader::SERIALIZED_SIZE <= i <= TRAILER_OFFSET,
                start <= TRAILER_OFFSET - MIN_IDLE_PACKET_SIZE,
                frame@ == front + Seq::new(
                    (i - start - SpacePacketHeader::SERIALIZED_SIZE) as nat,
                    |j: int| IDLE_DATA_PATTERN,
                ),
            decreases TRAILER_OFFSET - i,
        {
            frame.push(IDLE_DATA_PATTERN);
            i += 1;
            assert(frame@ =~= front + Seq::new(
                (i - start - SpacePacketHeader::SERIALIZED_SIZE) as nat,
                |j: int| IDLE_DATA_PATTERN,
            ));
        }
        assert(frame@ =~= before + idle_packet(size as nat));
    }

    /// A payload arrives. The frame buffer has to be here, and the payload to leave room
    /// for an idle packet.
    pub fn data_in(&mut self, data: Buffer, context: &FrameContext, out: &mut Vec<TmFramerAction>)
        requires
            old(self)@.owns_buffer,
            data@.size <= MAX_PAYLOAD_SIZE,
        ensures
            outputs::views(final(out)@) == outputs::views(old(out)@).push(
                TmFramerAction::DataOut {
                    data: BufferView::whole(
                        frame_bytes(
                            context.vc_id,
                            old(self)@.master_frame_count,
                            old(self)@.virtual_frame_count,
                            data@.bytes(),
                        ),
                        NO_CONTEXT,
                    ),
                    context: *context,
                },
            ).push(TmFramerAction::DataReturnOut { data: data@, context: *context }),
            final(self)@ == (TmFramerState {
                owns_buffer: false,
                master_frame_count: next_frame_count(old(self)@.master_frame_count),
                virtual_frame_count: next_frame_count(old(self)@.virtual_frame_count),
                ..old(self)@
            }),
            final(self)@ == old(self)@.sent(),
    {
        let size: usize = data.size();
        let payload: Vec<u8> = data.to_vec();
        let header = TMHeader::new(
            TMHeader::build_global_vc_id(SPACECRAFT_ID, context.vc_id, false),
            self.master_frame_count,
            self.virtual_frame_count,
            TMHeader::build_data_field_status(false, false, false, SEGMENT_LENGTH_ID, 0),
        );
        let ghost state = self@;
        let mut frame: Vec<u8> = match self.frame_storage.take() {
            Some(storage) => storage,
            None => Vec::new(),
        };
        self.master_frame_count = if self.master_frame_count == 0xFF {
            0
        } else {
            self.master_frame_count + 1
        };
        self.virtual_frame_count = if self.virtual_frame_count == 0xFF {
            0
        } else {
            self.virtual_frame_count + 1
        };
        frame.clear();
        let head: Vec<u8> = header.serialize();
        bytes::push_bytes(&mut frame, head.as_slice());
        bytes::push_bytes(&mut frame, payload.as_slice());
        Self::fill_with_idle_packet(&mut frame);
        assert(frame@ =~= covered_bytes(
            context.vc_id,
            state.master_frame_count,
            state.virtual_frame_count,
            data@.bytes(),
        ));
        let crc: u16 = Crc16::compute(frame.as_slice());
        bytes::push_u16(&mut frame, crc);
        let frame_buffer = Buffer::from_storage(frame, NO_CONTEXT);
        outputs::emit(out, TmFramerAction::DataOut { data: frame_buffer, context: *context });
        outputs::emit(out, TmFramerAction::DataReturnOut { data, context: *context });
    }

    /// The frame buffer comes back. It must be on its way, and be the frame buffer.
    pub fn data_return_in(&mut self, frame_buffer: Buffer)
        requires
            !old(self)@.owns_buffer,
            frame_buffer@.storage.len() == TM_FRAME_FIXED_SIZE,
        ensures
            final(self)@ == (TmFramerState { owns_buffer: true, ..old(self)@ }),
    {
        self.frame_storage = Some(frame_buffer.into_storage());
    }

    /// A status arrives; it is passed on, if anyone listens.
    pub fn com_status_in(&self, condition: Success, out: &mut Vec<TmFramerAction>)
        ensures
            outputs::views(final(out)@) == (if self@.com_status_connected {
                outputs::views(old(out)@).push(TmFramerAction::ComStatusOut { condition })
            } else {
                outputs::views(old(out)@)
            }),
    {
        if self.com_status_connected {
            outputs::emit(out, TmFramerAction::ComStatusOut { condition });
        }
    }
}

/// A frame count after `n` more frames.
pub open spec fn frame_count_after(count: u8, n: nat) -> u8
    decreases n,
{
    if n == 0 {
        count
    } else {
        next_frame_count(frame_count_after(count, (n - 1) as nat))
    }
}

/// Frame counts run on from frame to frame, and begin again at zero after 255.
pub proof fn law_frame_counts_run_on(count: u8, n: nat)
    ensures
        frame_count_after(count, n) == (count + n) % 0x100,
    decreases n,
{
    if n > 0 {
        law_frame_counts_run_on(count, (n - 1) as nat);
    }
}

/// Every frame has the fixed size, carries the payload right behind its header, and
/// passes its checksum: the frame with its trailer has checksum zero.
pub proof fn law_frame_layout(vc_id: u8, master_count: u8, virtual_count: u8, payload: Seq<u8>)
    requires
        payload.len() <= MAX_PAYLOAD_SIZE,
    ensures
        ({
            let frame = frame_bytes(vc_id, master_count, virtual_count, payload);
            let size = TMHeader::SERIALIZED_SIZE as int;
            &&& frame.len() == TM_FRAME_FIXED_SIZE
            &&& frame.take(size) == frame_header(vc_id, master_count, virtual_count).wire()
            &&& frame.subrange(size, size + payload.len()) == payload
            &&& crc16::crc16(frame) == 0
            &&& bytes::u16_at(frame, TRAILER_OFFSET as int) == crc16::crc16(
                frame.take(TRAILER_OFFSET as int),
            )
        }),
{
    let covered = covered_bytes(vc_id, master_count, virtual_count, payload);
    let frame = frame_bytes(vc_id, master_count, virtual_count, payload);
    let size = TMHeader::SERIALIZED_SIZE as int;
    assert(covered.len() == TRAILER_OFFSET);
    assert(frame.take(size) =~= frame_header(vc_id, master_count, virtual_count).wire());
    assert(frame.subrange(size, size + payload.len()) =~= payload);
    crc16::law_crc16_residue(covered);
    assert(frame.take(TRAILER_OFFSET as int) =~= covered);
    bytes::law_u16_round_trip(covered, crc16::crc16(covered), Seq::empty());
    assert(covered + bytes::be16(crc16::crc16(covered)) + Seq::<u8>::empty() =~= frame);
}

/// What fills a frame behind the payload is one well-formed idle packet that ends where
/// the trailer starts.
pub proof fn law_frame_is_filled_with_an_idle_packet(
    vc_id: u8,
    master_count: u8,
    virtual_count: u8,
    payload: Seq<u8>,
    context: FrameContext,
)
    requires
        payload.len() <= MAX_PAYLOAD_SIZE,
    ensures
        ({
            let frame = frame_bytes(vc_id, master_count, virtual_count, payload);
            let start = TMHeader::SERIALIZED_SIZE + payload.len();
            let fill = frame.subrange(start as int, TRAILER_OFFSET as int);
            &&& space_packet_deframer::packet_fault(fill) is None
            &&& SpacePacketHeader::SERIALIZED_SIZE + space_packet_deframer::data_length(fill)
                == fill.len()
            &&& space_packet_deframer::packet_context(fill, context).apid == Apid::SppIdlePacket
        }),
{
    let frame = frame_bytes(vc_id, master_count, virtual_count, payload);
    let start = TMHeader::SERIALIZED_SIZE + payload.len();
    let size = (TM_PAYLOAD_CAPACITY - payload.len()) as nat;
    let fill = frame.subrange(start as int, TRAILER_OFFSET as int);
    assert(fill =~= idle_packet(size));
    let pattern = Seq::new(
        (size - SpacePacketHeader::SERIALIZED_SIZE) as nat,
        |i: int| IDLE_DATA_PATTERN,
    );
    types::law_space_packet_header_round_trip(idle_header(size), pattern);
}

/// A space packet sent in a telemetry frame can be taken out of the frame's data field
/// and apart again: payload and context come back.
pub proof fn law_packet_in_frame_round_trip(
    vc_id: u8,
    master_count: u8,
    virtual_count: u8,
    context: FrameContext,
    sequence_count: u16,
    payload: Seq<u8>,
    received: FrameContext,
)
    requires
        0 < payload.len(),
        payload.len() + SpacePacketHeader::SERIALIZED_SIZE <= MAX_PAYLOAD_SIZE,
        context.apid.code() < 0x800,
    ensures
        ({
            let packet = space_packet_framer::packet_bytes(context, sequence_count, payload);
            let frame = frame_bytes(vc_id, master_count, virtual_count, packet);
            let field = frame.subrange(TMHeader::SERIALIZED_SIZE as int, TRAILER_OFFSET as int);
            let size = SpacePacketHeader::SERIALIZED_SIZE as int;
            let n = space_packet_deframer::data_length(field) as int;
            &&& space_packet_deframer::packet_fault(field) is None
            &&& field.subrange(size, size + n) == payload
            &&& space_packet_deframer::packet_context(field, received) == FrameContext {
                apid: context.apid,
                has_sec_hdr: context.has_sec_hdr,
                sequence_flags: (context.sequence_flags % 4) as u8,
                sequence_count: (sequence_count % 0x4000) as u16,
                ..received
            }
        }),
{
    let packet = space_packet_framer::packet_bytes(context, sequence_count, payload);
    let frame = frame_bytes(vc_id, master_count, virtual_count, packet);
    let field = frame.subrange(TMHeader::SERIALIZED_SIZE as int, TRAILER_OFFSET as int);
    let fill = idle_packet((TM_PAYLOAD_CAPACITY - packet.len()) as nat);
    assert(field =~= packet + fill);
    space_packet_framer::law_space_packet_round_trip(
        context,
        sequence_count,
        payload,
        fill,
        received,
    );
}

/// A frame byte by byte, for a virtual channel that fits its field. It starts with the
/// spacecraft and the channel, the two counts, and a status that only says that the data field
/// holds whole packets. The payload follows, and behind it an idle packet: its application is
/// the one for idle packets, it is not segmented, it says how long it is, and it is filled with
/// one pattern. The last two bytes are the checksum of all others.
pub proof fn law_frame_byte_by_byte(
    vc_id: u8,
    master_count: u8,
    virtual_count: u8,
    payload: Seq<u8>,
)
    requires
        payload.len() <= 1009,
        vc_id < 8,
    ensures
        ({
            let frame = frame_bytes(vc_id, master_count, virtual_count, payload);
            let fill = 6 + payload.len() as int;
            &&& frame.len() == 1024
            &&& frame[0] * 256 + frame[1] == 0x44 * 16 + vc_id * 2
            &&& frame[2] == master_count
            &&& frame[3] == virtual_count
            &&& frame[4] == 0x18
            &&& frame[5] == 0
            &&& frame.subrange(6, fill) == payload
            &&& frame[fill] == 0x07
            &&& frame[fill + 1] == 0xFF
            &&& frame[fill + 2] == 0xC0
            &&& frame[fill + 3] == 0x00
            &&& frame[fill + 4] * 256 + frame[fill + 5] == 1022 - (fill + 6) - 1
            &&& forall|i: int| fill + 6 <= i < 1022 ==> #[trigger] frame[i] == 0x44
            &&& frame[1022] * 256 + frame[1023] == crc16::crc16(frame.subrange(0, 1022))
        }),
{
    let frame = frame_bytes(vc_id, master_count, virtual_count, payload);
    law_frame_layout(vc_id, master_count, virtual_count, payload);
    types::law_channel_word_round_trip(SPACECRAFT_ID, vc_id, false);
    let w = TMHeader::channel_word(SPACECRAFT_ID, vc_id, false);
    assert(w == 0x44 * 16 + vc_id * 2);
    let head = frame_header(vc_id, master_count, virtual_count).wire();
    assert(frame.take(6) == head);
    assert(forall|i: int| 0 <= i < 6 ==> frame[i] == frame.take(6)[i]);
    let fill = 6 + payload.len() as int;
    let idle = idle_packet((TM_PAYLOAD_CAPACITY - payload.len()) as nat);
    assert(forall|i: int| fill <= i < 1022 ==> frame[i] == idle[i - fill]);
    assert(frame.subrange(0, 1022) =~= frame.take(1022));
    bytes::law_numbers_at(frame, 1022);
}

/// The first two bytes of a frame for any virtual channel at all. One that does not fit its field
/// is not cut: its upper bits are laid over those of the spacecraft.
pub proof fn law_channel_is_not_cut(
    vc_id: u8,
    master_count: u8,
    virtual_count: u8,
    payload: Seq<u8>,
)
    requires
        payload.len() <= 1009,
    ensures
        ({
            let frame = frame_bytes(vc_id, master_count, virtual_count, payload);
            frame[0] * 256 + frame[1] == 0x440 + vc_id * 2 - (vc_id / 32 % 2) * 64
        }),
{
    let frame = frame_bytes(vc_id, master_count, virtual_count, payload);
    law_frame_layout(vc_id, master_count, virtual_count, payload);
    let w = TMHeader::channel_word(SPACECRAFT_ID, vc_id, false);
    assert(((vc_id as u16) << 1u32) | (0x44u16 << 4u32) | 0u16 == 0x440 + vc_id * 2 - (vc_id / 32
        % 2) * 64) by (bit_vector);
    let head = frame_header(vc_id, master_count, virtual_count).wire();
    assert(frame[0] == frame.take(6)[0] && frame[1] == frame.take(6)[1]);
}

/// Sending a frame counts it on the link and on the virtual channel, back to zero after 255, and
/// takes the frame buffer away until it comes back. Nothing else changes.
pub proof fn law_sending_counts(s: TmFramerState)
    ensures
        !s.sent().owns_buffer,
        s.sent().master_frame_count == (s.master_frame_count + 1) % 256,
        s.sent().virtual_frame_count == (s.virtual_frame_count + 1) % 256,
        s.sent().com_status_connected == s.com_status_connected,
{
}

} // verus!
