//! Putting packets into telemetry transfer frames.
use fprime_svc::ccsds::crc16::Crc16;
use fprime_svc::ccsds::tm_framer::{
    TmFramer, TmFramerAction, IDLE_DATA_PATTERN, MAX_PAYLOAD_SIZE, MIN_IDLE_PACKET_SIZE,
    TRAILER_OFFSET,
};
use fprime_svc::ccsds::types::{TMHeader, SPACECRAFT_ID, TM_FRAME_FIXED_SIZE};
use fprime_svc::fw::buffer::{Buffer, NO_CONTEXT};
use fprime_svc::fw::types::{FrameContext, Success};

/// What the framer did, output by output.
#[derive(Default)]
struct Recorder {
    data_out: Vec<(Vec<u8>, FrameContext)>,
    data_return: Vec<(Vec<u8>, FrameContext)>,
    statuses: Vec<Success>,
}

impl Recorder {
    /// Notes the outputs, and hands the frames back.
    fn take(&mut self, out: Vec<TmFramerAction>) -> Vec<Buffer> {
        let mut frames = Vec::new();
        for action in out {
            match action {
                TmFramerAction::DataOut { data, context } => {
                    self.data_out.push((data.to_vec(), context));
                    frames.push(data);
                }
                TmFramerAction::DataReturnOut { data, context } => {
                    self.data_return.push((data.to_vec(), context));
                }
                TmFramerAction::ComStatusOut { condition } => self.statuses.push(condition),
            }
        }
        frames
    }
}

fn build() -> (TmFramer, Recorder) {
    (TmFramer::new(), Recorder::default())
}

/// A buffer that holds `bytes` and has room for at least one byte.
fn buffer_of(bytes: &[u8]) -> Buffer {
    let mut storage = bytes.to_vec();
    if storage.is_empty() {
        storage.push(0);
    }
    let mut b = Buffer::from_storage(storage, NO_CONTEXT);
    b.set_size(bytes.len());
    b
}

fn feed(framer: &mut TmFramer, rec: &mut Recorder, bytes: &[u8], context: &FrameContext) {
    let mut out = Vec::new();
    framer.data_in(buffer_of(bytes), context, &mut out);
    rec.take(out);
}

/// As `feed`, with the frame buffer given back at once.
fn feed_and_return(framer: &mut TmFramer, rec: &mut Recorder, bytes: &[u8], context: &FrameContext) {
    let mut out = Vec::new();
    framer.data_in(buffer_of(bytes), context, &mut out);
    for frame in rec.take(out) {
        framer.data_return_in(frame);
    }
}

/// The exact 1024 bytes of the first frame, field by field.
#[test]
fn frame_bytes_are_byte_exact() {
    let (mut framer, mut rec) = build();
    let ctx = FrameContext::default(); // vcId = 1 per ComCfg
    feed(&mut framer, &mut rec, &[0x01, 0x02, 0x03, 0x04], &ctx);

    let out = &rec.data_out;
    assert_eq!(out.len(), 1);
    let frame = &out[0].0;
    assert_eq!(frame.len(), TM_FRAME_FIXED_SIZE);

    // Primary header: TFVN 00 | SCID 0x044 | VCID 1 | OCF 0 = 0x0442,
    // master/virtual counts 0, data field status 0x1800.
    assert_eq!(&frame[0..6], &[0x04, 0x42, 0x00, 0x00, 0x18, 0x00]);
    // Payload at the data field origin.
    assert_eq!(&frame[6..10], &[0x01, 0x02, 0x03, 0x04]);
    // Idle packet header: APID 0x7FF, seq flags 0b11 count 0, length
    // token = idle size - 7 = (1022 - 10) - 7 = 1005 = 0x03ED.
    assert_eq!(&frame[10..16], &[0x07, 0xFF, 0xC0, 0x00, 0x03, 0xED]);
    // Idle data all the way to the trailer.
    assert!(
        frame[16..TRAILER_OFFSET]
            .iter()
            .all(|&b| b == IDLE_DATA_PATTERN)
    );
    // FECF over [0, 1022).
    let crc = Crc16::compute(&frame[..TRAILER_OFFSET]);
    assert_eq!(
        &frame[TRAILER_OFFSET..],
        &crc.to_be_bytes(),
        "trailer must hold the CRC big-endian"
    );
    // The whole frame checksums to zero (the FECF residue property).
    assert_eq!(Crc16::compute(frame), 0);
    // The context is forwarded unmodified and the payload returned.
    assert_eq!(out[0].1, ctx);
    let ret = &rec.data_return;
    assert_eq!(ret[0].0, vec![0x01, 0x02, 0x03, 0x04]);
    assert_eq!(ret[0].1, ctx);
}

/// The virtual channel id comes from the context and lands in bits
/// `[3:1]` of the first header word.
#[test]
fn virtual_channel_id_comes_from_context() {
    let (mut framer, mut rec) = build();
    let ctx = FrameContext {
        vc_id: 5,
        ..FrameContext::default()
    };
    feed(&mut framer, &mut rec, &[0xFF], &ctx);
    let out = &rec.data_out;
    let word = u16::from_be_bytes([out[0].0[0], out[0].0[1]]);
    assert_eq!(word, (SPACECRAFT_ID << 4) | (5 << 1));
    assert_eq!(word, 0x044A);
}

/// The counts are written BEFORE being incremented, so the first frame
/// carries 0/0, and both wrap mod 256.
#[test]
fn frame_counts_increment_after_use_and_wrap() {
    let (mut framer, mut rec) = build();
    for _ in 0..258 {
        feed_and_return(&mut framer, &mut rec, &[0xAB], &FrameContext::default());
    }
    let out = &rec.data_out;
    assert_eq!(out.len(), 258);
    assert_eq!((out[0].0[2], out[0].0[3]), (0, 0));
    assert_eq!((out[1].0[2], out[1].0[3]), (1, 1));
    assert_eq!((out[255].0[2], out[255].0[3]), (255, 255));
    assert_eq!((out[256].0[2], out[256].0[3]), (0, 0)); // wrapped
    assert_eq!((out[257].0[2], out[257].0[3]), (1, 1));
}

/// The idle packet shrinks as the payload grows, down to its 7-byte
/// minimum at the true maximum payload (1009 bytes).
#[test]
fn idle_packet_fills_exactly_to_the_trailer() {
    let (mut framer, mut rec) = build();
    for size in [1usize, 100, 500, MAX_PAYLOAD_SIZE] {
        feed_and_return(&mut framer, &mut rec, &vec![0x5A; size], &FrameContext::default());
    }
    let out = &rec.data_out;
    for (i, size) in [1usize, 100, 500, MAX_PAYLOAD_SIZE].iter().enumerate() {
        let frame = &out[i].0;
        let idle_start = TMHeader::SERIALIZED_SIZE + size;
        let idle_size = TRAILER_OFFSET - idle_start;
        assert_eq!(&frame[idle_start..idle_start + 2], &[0x07, 0xFF]);
        assert_eq!(&frame[idle_start + 2..idle_start + 4], &[0xC0, 0x00]);
        let token = u16::from_be_bytes([frame[idle_start + 4], frame[idle_start + 5]]);
        assert_eq!(usize::from(token), idle_size - 7);
        assert!(
            frame[idle_start + 6..TRAILER_OFFSET]
                .iter()
                .all(|&b| b == IDLE_DATA_PATTERN)
        );
        assert_eq!(Crc16::compute(frame), 0);
    }
    // The largest payload leaves exactly the 7-byte minimum idle packet.
    assert_eq!(
        TRAILER_OFFSET - (TMHeader::SERIALIZED_SIZE + MAX_PAYLOAD_SIZE),
        MIN_IDLE_PACKET_SIZE
    );
    assert_eq!(MAX_PAYLOAD_SIZE, 1009);
}

/// Ownership handshake: the frame must be returned before the next one.
#[test]
fn ownership_returns_on_data_return_in() {
    let (mut framer, mut rec) = build();
    assert!(framer.owns_frame_buffer());
    feed(&mut framer, &mut rec, &[0x01], &FrameContext::default());
    assert!(!framer.owns_frame_buffer());
    let frame = rec.data_out[0].0.clone();
    framer.data_return_in(buffer_of(&frame));
    assert!(framer.owns_frame_buffer());
    feed(&mut framer, &mut rec, &[0x02], &FrameContext::default());
    assert_eq!(rec.data_out.len(), 2);
}

/// comStatusIn forwards only when comStatusOut is connected.
#[test]
fn tm_framer_com_status_forwarding() {
    let (mut framer, mut rec) = build();
    let mut out = Vec::new();
    framer.com_status_in(Success::Success, &mut out);
    rec.take(out);
    assert!(rec.statuses.is_empty());
    framer.connect_com_status();
    let mut out = Vec::new();
    framer.com_status_in(Success::Success, &mut out);
    rec.take(out);
    assert_eq!(rec.statuses, vec![Success::Success]);
}
