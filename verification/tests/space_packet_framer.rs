//! Putting payloads into space packets.
use fprime_svc::ccsds::apid_manager::ApidManager;
use fprime_svc::ccsds::space_packet_framer::{
    no_buffer_available_event, SpacePacketFramer, SpacePacketFramerAction,
    EVENTID_NO_BUFFER_AVAILABLE,
};
use fprime_svc::fw::buffer::{Buffer, NO_CONTEXT};
use fprime_svc::fw::types::{Apid, FrameContext, LogSeverity, Success};

/// What the framer did, output by output.
#[derive(Default)]
struct Recorder {
    data_out: Vec<(Vec<u8>, FrameContext)>,
    data_return: Vec<(Vec<u8>, FrameContext)>,
    deallocated: Vec<Vec<u8>>,
    statuses: Vec<Success>,
    events: Vec<(u32, LogSeverity)>,
}

impl Recorder {
    fn take(&mut self, out: Vec<SpacePacketFramerAction>) {
        for action in out {
            match action {
                SpacePacketFramerAction::NoBufferAvailable => {
                    self.events.push(no_buffer_available_event());
                }
                SpacePacketFramerAction::BufferDeallocate { data } => {
                    self.deallocated.push(data.to_vec());
                }
                SpacePacketFramerAction::DataOut { data, context } => {
                    self.data_out.push((data.to_vec(), context));
                }
                SpacePacketFramerAction::DataReturnOut { data, context } => {
                    self.data_return.push((data.to_vec(), context));
                }
                SpacePacketFramerAction::ComStatusOut { condition } => {
                    self.statuses.push(condition);
                }
            }
        }
    }
}

/// Gives out buffers of one size, or of the size that was asked for.
struct Allocator {
    size: Option<usize>,
    requests: Vec<u64>,
}

impl Allocator {
    fn exact() -> Self {
        Allocator { size: None, requests: Vec::new() }
    }

    fn fixed(size: usize) -> Self {
        Allocator { size: Some(size), requests: Vec::new() }
    }

    fn get(&mut self, size: u64) -> Buffer {
        self.requests.push(size);
        match self.size.unwrap_or(size as usize) {
            0 => Buffer::empty(),
            n => Buffer::allocate(n),
        }
    }
}

/// Where sequence counts come from.
trait Counts {
    fn next(&mut self, apid: Apid) -> u16;
}

impl Counts for ApidManager {
    fn next(&mut self, apid: Apid) -> u16 {
        self.get_apid_seq_count_in(apid)
    }
}

/// Counts up from a given number, whatever the application.
struct SeqCounter {
    next: u16,
    calls: Vec<Apid>,
}

impl SeqCounter {
    fn new(start: u16) -> Self {
        SeqCounter { next: start, calls: Vec::new() }
    }
}

impl Counts for SeqCounter {
    fn next(&mut self, apid: Apid) -> u16 {
        self.calls.push(apid);
        let value = self.next;
        self.next = value.wrapping_add(1);
        value
    }
}

fn build() -> (SpacePacketFramer, Recorder) {
    (SpacePacketFramer::new(), Recorder::default())
}

/// A buffer that holds `bytes` and has room for at least one byte.
fn buffer_of(bytes: &[u8]) -> Buffer {
    let mut storage = bytes.to_vec();
    if storage.is_empty() {
        storage.push(0);
    }
    let mut b = Buffer::from_storage(storage, NO_CONTEXT);
    b.set_size(bytes.len());
    b
}

fn feed(
    framer: &mut SpacePacketFramer,
    rec: &mut Recorder,
    alloc: &mut Allocator,
    counts: &mut dyn Counts,
    bytes: &[u8],
    context: &FrameContext,
) {
    let data = buffer_of(bytes);
    let frame_buffer = alloc.get(SpacePacketFramer::frame_size(&data));
    let count = if SpacePacketFramer::takes_packet(&data, &frame_buffer) {
        counts.next(context.apid)
    } else {
        0
    };
    let mut out = Vec::new();
    framer.data_in(data, context, frame_buffer, count, &mut out);
    rec.take(out);
}

/// Literal wire bytes: APID 0x0002 (LOG), no secondary header,
/// unsegmented (0b11), sequence count 3, 4-byte payload.
#[test]
fn packet_bytes_are_byte_exact() {
    let mut alloc = Allocator::exact();
    let mut seq = SeqCounter::new(3);
    let (mut framer, mut rec) = build();
    let ctx = FrameContext {
        apid: Apid::FwPacketLog,
        sequence_flags: 0b11,
        ..FrameContext::default()
    };
    feed(&mut framer, &mut rec, &mut alloc, &mut seq, &[0xDE, 0xAD, 0xBE, 0xEF], &ctx);

    let out = &rec.data_out;
    assert_eq!(out.len(), 1);
    assert_eq!(
        out[0].0,
        vec![0x00, 0x02, 0xC0, 0x03, 0x00, 0x03, 0xDE, 0xAD, 0xBE, 0xEF]
    );
    // The context is forwarded UNMODIFIED (the framer never writes back
    // the allocated sequence count).
    assert_eq!(out[0].1, ctx);
    assert_eq!(alloc.requests, vec![10]);
    // One sequence count was asked for, for the application of the context.
    assert_eq!(seq.calls, vec![Apid::FwPacketLog]);
    // Payload buffer returned with the same context.
    let ret = &rec.data_return;
    assert_eq!(ret.len(), 1);
    assert_eq!(ret[0].0, vec![0xDE, 0xAD, 0xBE, 0xEF]);
    assert_eq!(ret[0].1, ctx);
}

/// The secondary-header flag lands in bit 11 and the sequence flags in
/// bits `[15:14]`.
#[test]
fn sec_hdr_flag_and_sequence_flags_are_packed() {
    let mut alloc = Allocator::exact();
    let mut seq = SeqCounter::new(0x3FFF);
    let (mut framer, mut rec) = build();
    let ctx = FrameContext {
        apid: Apid::SppIdlePacket,
        has_sec_hdr: true,
        sequence_flags: 0b01,
        ..FrameContext::default()
    };
    feed(&mut framer, &mut rec, &mut alloc, &mut seq, &[0x01], &ctx);
    let out = &rec.data_out;
    // 0x0800 (sec hdr) | 0x07FF (apid) = 0x0FFF; 0b01 << 14 | 0x3FFF.
    assert_eq!(out[0].0, vec![0x0F, 0xFF, 0x7F, 0xFF, 0x00, 0x00, 0x01]);
}

/// The length token is octets minus one for a single-byte payload.
#[test]
fn single_byte_payload_has_zero_length_token() {
    let mut alloc = Allocator::exact();
    let mut seq = SeqCounter::new(0);
    let (mut framer, mut rec) = build();
    feed(&mut framer, &mut rec, &mut alloc, &mut seq, &[0xAA], &FrameContext::default());
    let out = &rec.data_out;
    assert_eq!(out[0].0.len(), 7);
    assert_eq!(&out[0].0[4..6], &[0x00, 0x00]);
}

/// A real ApidManager drives the counts: per-APID, monotonic, and the
/// packets carry them in order.
#[test]
fn sequence_counts_come_from_the_apid_manager() {
    let mut alloc = Allocator::exact();
    let mut seq = ApidManager::new();
    let (mut framer, mut rec) = build();

    let telem = FrameContext {
        apid: Apid::FwPacketTelem,
        ..FrameContext::default()
    };
    let log = FrameContext {
        apid: Apid::FwPacketLog,
        ..FrameContext::default()
    };
    feed(&mut framer, &mut rec, &mut alloc, &mut seq, &[0x00], &telem);
    feed(&mut framer, &mut rec, &mut alloc, &mut seq, &[0x00], &log);
    feed(&mut framer, &mut rec, &mut alloc, &mut seq, &[0x00], &telem);

    let out = &rec.data_out;
    let counts: Vec<u16> = out
        .iter()
        .map(|(bytes, _)| u16::from_be_bytes([bytes[2], bytes[3]]) & 0x3FFF)
        .collect();
    assert_eq!(counts, vec![0, 0, 1]);
}

/// An invalid allocation drops the packet: throttled event, payload
/// returned, nothing deallocated.
#[test]
fn invalid_allocation_drops_packet() {
    let mut alloc = Allocator::fixed(0);
    let mut seq = SeqCounter::new(0);
    let (mut framer, mut rec) = build();
    let ctx = FrameContext {
        apid: Apid::FwPacketTelem,
        ..FrameContext::default()
    };
    feed(&mut framer, &mut rec, &mut alloc, &mut seq, &[0x11, 0x22], &ctx);
    assert!(rec.data_out.is_empty());
    assert!(rec.deallocated.is_empty());
    let ret = &rec.data_return;
    assert_eq!(ret.len(), 1);
    assert_eq!(ret[0].0, vec![0x11, 0x22]);
    assert_eq!(ret[0].1, ctx);
    assert_eq!(
        rec.events,
        vec![(EVENTID_NO_BUFFER_AVAILABLE, LogSeverity::WarningHi)]
    );
    // No sequence count is consumed on the drop path.
    assert!(seq.calls.is_empty());
}

/// A valid-but-too-small allocation is deallocated and the packet
/// dropped.
#[test]
fn small_allocation_is_deallocated_and_packet_dropped() {
    let mut alloc = Allocator::fixed(4);
    let mut seq = SeqCounter::new(0);
    let (mut framer, mut rec) = build();
    feed(&mut framer, &mut rec, &mut alloc, &mut seq, &[0x11, 0x22], &FrameContext::default());
    assert!(rec.data_out.is_empty());
    assert_eq!(rec.deallocated.len(), 1);
    assert_eq!(rec.deallocated[0].len(), 4);
    assert_eq!(rec.data_return.len(), 1);
    assert_eq!(rec.events.len(), 1);
}

/// An oversized allocation is trimmed to the packet size.
#[test]
fn oversized_allocation_is_trimmed() {
    let mut alloc = Allocator::fixed(64);
    let mut seq = SeqCounter::new(0);
    let (mut framer, mut rec) = build();
    feed(&mut framer, &mut rec, &mut alloc, &mut seq, &[0x01, 0x02, 0x03], &FrameContext::default());
    assert_eq!(rec.data_out[0].0.len(), 9);
}

/// `NoBufferAvailable` throttles at 5 and the clear helper re-enables it.
#[test]
fn no_buffer_available_event_throttles_at_five() {
    let mut alloc = Allocator::fixed(0);
    let mut seq = SeqCounter::new(0);
    let (mut framer, mut rec) = build();
    for _ in 0..8 {
        feed(&mut framer, &mut rec, &mut alloc, &mut seq, &[0x01], &FrameContext::default());
    }
    assert_eq!(rec.events.len(), 5);
    framer.clear_no_buffer_available_throttle();
    feed(&mut framer, &mut rec, &mut alloc, &mut seq, &[0x01], &FrameContext::default());
    assert_eq!(rec.events.len(), 6);
    // Every drop still returned the payload buffer.
    assert_eq!(rec.data_return.len(), 9);
}

/// comStatusIn forwards only when comStatusOut is connected.
#[test]
fn space_packet_framer_com_status_forwarding() {
    let (mut framer, mut rec) = build();
    let mut out = Vec::new();
    framer.com_status_in(Success::Success, &mut out);
    rec.take(out);
    assert!(rec.statuses.is_empty());
    framer.connect_com_status();
    let mut out = Vec::new();
    framer.com_status_in(Success::Failure, &mut out);
    rec.take(out);
    assert_eq!(rec.statuses, vec![Success::Failure]);
}

/// dataReturnIn releases the framed packet to the allocator.
#[test]
fn data_return_in_deallocates_the_frame_buffer() {
    let (framer, mut rec) = build();
    let mut out = Vec::new();
    framer.data_return_in(buffer_of(b"packet"), &mut out);
    rec.take(out);
    assert_eq!(rec.deallocated.len(), 1);
    assert_eq!(rec.deallocated[0], b"packet");
}
