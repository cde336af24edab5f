//! Taking telecommand transfer frames apart.
use fprime_svc::ccsds::apid_manager::ApidManager;
use fprime_svc::ccsds::crc16::Crc16;
use fprime_svc::ccsds::space_packet_deframer::{SpacePacketDeframer, SpacePacketDeframerAction};
use fprime_svc::ccsds::space_packet_framer::{SpacePacketFramer, SpacePacketFramerAction};
use fprime_svc::ccsds::tc_deframer::{
    TcDeframer, TcDeframerAction, EVENTID_INVALID_CRC, EVENTID_INVALID_FRAME_LENGTH,
    EVENTID_INVALID_PACKET, EVENTID_INVALID_SPACECRAFT_ID, EVENTID_INVALID_VC_ID,
    MIN_TC_FRAME_SIZE,
};
use fprime_svc::ccsds::tm_framer::{TmFramer, TmFramerAction, TRAILER_OFFSET};
use fprime_svc::ccsds::types::{FrameError, SpacePacketHeader, TCHeader, TMHeader, SPACECRAFT_ID};
use fprime_svc::fw::buffer::{Buffer, NO_CONTEXT};
use fprime_svc::fw::types::{Apid, FrameContext, LogSeverity};

/// What the deframer did, output by output.
#[derive(Default)]
struct Recorder {
    data_out: Vec<(Vec<u8>, FrameContext)>,
    data_return: Vec<(Vec<u8>, FrameContext)>,
    events: Vec<(u32, LogSeverity, Vec<u16>)>,
    errors: Vec<FrameError>,
}

impl Recorder {
    fn take(&mut self, out: Vec<TcDeframerAction>) {
        for action in out {
            match action {
                TcDeframerAction::Event(event) => {
                    let args: Vec<u16> = event
                        .args()
                        .chunks(2)
                        .map(|c| u16::from_be_bytes([c[0], c[1]]))
                        .collect();
                    self.events.push((event.id(), event.severity(), args));
                }
                TcDeframerAction::ErrorNotify(error) => self.errors.push(error),
                TcDeframerAction::DataOut { data, context } => {
                    self.data_out.push((data.to_vec(), context));
                }
                TcDeframerAction::DataReturnOut { data, context } => {
                    self.data_return.push((data.to_vec(), context));
                }
            }
        }
    }
}

fn build() -> (TcDeframer, Recorder) {
    let mut deframer = TcDeframer::new();
    deframer.connect_error_notify();
    (deframer, Recorder::default())
}

/// A buffer that holds `bytes` and has room for at least one byte.
fn buffer_of(bytes: &[u8]) -> Buffer {
    let mut storage = bytes.to_vec();
    if storage.is_empty() {
        storage.push(0);
    }
    let mut b = Buffer::from_storage(storage, NO_CONTEXT);
    b.set_size(bytes.len());
    b
}

fn feed(deframer: &TcDeframer, rec: &mut Recorder, bytes: &[u8], context: &FrameContext) {
    let mut out = Vec::new();
    deframer.data_in(buffer_of(bytes), context, &mut out);
    rec.take(out);
}

/// A well-formed frame around `payload`: bypass set, control clear, a valid checksum.
fn tc_frame(spacecraft_id: u16, vc_id: u8, payload: &[u8]) -> Vec<u8> {
    let total = (MIN_TC_FRAME_SIZE + payload.len()) as u16;
    let mut frame = Vec::new();
    frame.extend_from_slice(
        &TCHeader::build_flags_and_sc_id(true, false, spacecraft_id).to_be_bytes(),
    );
    frame.extend_from_slice(&TCHeader::build_vc_id_and_length(vc_id, total).to_be_bytes());
    frame.push(0);
    frame.extend_from_slice(payload);
    let crc = Crc16::compute(&frame);
    frame.extend_from_slice(&crc.to_be_bytes());
    frame
}

/// A well-formed frame's literal bytes, and the deframed data field.
#[test]
fn valid_frame_bytes_and_deframing() {
    let (deframer, mut rec) = build();
    let frame = tc_frame(SPACECRAFT_ID, 0, &[0x01, 0x02, 0x03]);
    // 0x2044 | vcid 0 + length token 9 | seq 0 | payload | CRC
    assert_eq!(&frame[..5], &[0x20, 0x44, 0x00, 0x09, 0x00]);
    assert_eq!(frame.len(), 10);
    assert_eq!(Crc16::compute(&frame), 0); // FECF residue

    let ctx = FrameContext {
        apid: Apid::FwPacketHand,
        vc_id: 3,
        ..FrameContext::default()
    };
    feed(&deframer, &mut rec, &frame, &ctx);
    let out = &rec.data_out;
    assert_eq!(out.len(), 1);
    assert_eq!(out[0].0, vec![0x01, 0x02, 0x03]);
    // The context is forwarded UNMODIFIED: no vcId, no apid.
    assert_eq!(out[0].1, ctx);
    assert!(rec.events.is_empty());
    assert!(rec.errors.is_empty());
}

/// A frame carrying exactly one data byte is the smallest accepted one.
#[test]
fn minimum_length_frame_is_accepted() {
    let (deframer, mut rec) = build();
    feed(&deframer, &mut rec,
        &tc_frame(SPACECRAFT_ID, 0, &[0xAA]),
        &FrameContext::default(),
    );
    assert_eq!(rec.data_out[0].0, vec![0xAA]);
}

/// A 7-byte buffer (header + trailer, no data) is rejected as
/// `InvalidPacket` WARNING_LO — and raises NO errorNotify.
#[test]
fn too_short_frame_is_rejected_without_error_notify() {
    let (deframer, mut rec) = build();
    let ctx = FrameContext {
        vc_id: 2,
        ..FrameContext::default()
    };
    feed(&deframer, &mut rec, &tc_frame(SPACECRAFT_ID, 0, &[]), &ctx);
    assert!(rec.data_out.is_empty());
    let events = &rec.events;
    assert_eq!(events.len(), 1);
    assert_eq!(events[0].0, EVENTID_INVALID_PACKET);
    assert_eq!(events[0].1, LogSeverity::WarningLo);
    assert!(rec.errors.is_empty());
    let ret = &rec.data_return;
    assert_eq!(ret[0].1, ctx);
}

/// A wrong spacecraft ID is rejected with both arguments in declaration
/// order.
#[test]
fn wrong_spacecraft_id_is_rejected() {
    let (deframer, mut rec) = build();
    feed(&deframer, &mut rec,
        &tc_frame(0x0123, 0, &[0x01]),
        &FrameContext::default(),
    );
    assert!(rec.data_out.is_empty());
    let events = &rec.events;
    assert_eq!(events[0].0, EVENTID_INVALID_SPACECRAFT_ID);
    assert_eq!(events[0].1, LogSeverity::WarningLo);
    assert_eq!(events[0].2, vec![0x0123, SPACECRAFT_ID]);
    assert_eq!(rec.errors, vec![FrameError::TcInvalidScid]);
}

/// `configure` changes the accepted spacecraft ID.
#[test]
fn configure_changes_the_accepted_spacecraft_id() {
    let (mut deframer, mut rec) = build();
    deframer.configure(0, 0x0123, true);
    feed(&deframer, &mut rec,
        &tc_frame(0x0123, 0, &[0x01]),
        &FrameContext::default(),
    );
    assert_eq!(rec.data_out.len(), 1);
    assert!(rec.events.is_empty());
}

/// A declared length longer than the received data is `InvalidFrameLength`
/// (WARNING_HI) with args (u16 transmitted, u64 actual).
#[test]
fn declared_length_beyond_the_buffer_is_rejected() {
    let (deframer, mut rec) = build();
    let mut frame = tc_frame(SPACECRAFT_ID, 0, &[0x01, 0x02]);
    // Claim 100 total octets.
    let word = TCHeader::build_vc_id_and_length(0, 100);
    frame[2..4].copy_from_slice(&word.to_be_bytes());
    feed(&deframer, &mut rec, &frame, &FrameContext::default());
    assert!(rec.data_out.is_empty());
    let events = &rec.events;
    assert_eq!(events[0].0, EVENTID_INVALID_FRAME_LENGTH);
    assert_eq!(events[0].1, LogSeverity::WarningHi);
    // [u16 transmitted][u64 actual] decoded as u16 words.
    assert_eq!(events[0].2, vec![100, 0, 0, 0, 9]);
    assert_eq!(
        rec.errors,
        vec![FrameError::TcInvalidLength]
    );
}

/// A structurally impossible length (< header + trailer) is rejected
/// even when the buffer is big enough.
#[test]
fn structurally_short_declared_length_is_rejected() {
    let (deframer, mut rec) = build();
    let mut frame = tc_frame(SPACECRAFT_ID, 0, &[0x01, 0x02, 0x03, 0x04]);
    let word = TCHeader::build_vc_id_and_length(0, 6);
    frame[2..4].copy_from_slice(&word.to_be_bytes());
    feed(&deframer, &mut rec, &frame, &FrameContext::default());
    assert!(rec.data_out.is_empty());
    assert_eq!(
        rec.events[0].0,
        EVENTID_INVALID_FRAME_LENGTH
    );
    assert_eq!(
        rec.errors,
        vec![FrameError::TcInvalidLength]
    );
}

/// A declared length SHORTER than the buffer is accepted, and the data
/// field is windowed to it (trailing bytes ignored).
#[test]
fn declared_length_shorter_than_the_buffer_windows_the_data_field() {
    let (deframer, mut rec) = build();
    let mut frame = tc_frame(SPACECRAFT_ID, 0, &[0x01, 0x02]);
    frame.extend_from_slice(&[0xFF, 0xFF]); // extra trailing bytes
    feed(&deframer, &mut rec, &frame, &FrameContext::default());
    assert_eq!(rec.data_out[0].0, vec![0x01, 0x02]);
}

/// All virtual channels are accepted by default; `configure` restricts
/// them, and a mismatch is ACTIVITY_LO.
#[test]
fn virtual_channel_filtering() {
    let (mut deframer, mut rec) = build();
    // Default: accept all.
    feed(&deframer, &mut rec,
        &tc_frame(SPACECRAFT_ID, 0x3F, &[0x01]),
        &FrameContext::default(),
    );
    assert_eq!(rec.data_out.len(), 1);

    deframer.configure(2, SPACECRAFT_ID, false);
    feed(&deframer, &mut rec,
        &tc_frame(SPACECRAFT_ID, 2, &[0x02]),
        &FrameContext::default(),
    );
    assert_eq!(rec.data_out.len(), 2);
    feed(&deframer, &mut rec,
        &tc_frame(SPACECRAFT_ID, 5, &[0x03]),
        &FrameContext::default(),
    );
    assert_eq!(rec.data_out.len(), 2);
    let events = &rec.events;
    assert_eq!(events[0].0, EVENTID_INVALID_VC_ID);
    assert_eq!(events[0].1, LogSeverity::ActivityLo);
    assert_eq!(events[0].2, vec![5, 2]);
    assert_eq!(rec.errors, vec![FrameError::TcInvalidVcid]);
}

/// A corrupted checksum is rejected; the computed one is the first argument.
#[test]
fn bad_crc_is_rejected_with_inverted_event_arguments() {
    let (deframer, mut rec) = build();
    let mut frame = tc_frame(SPACECRAFT_ID, 0, &[0x01, 0x02]);
    let computed = Crc16::compute(&frame[..frame.len() - 2]);
    let last = frame.len() - 1;
    frame[last] ^= 0xFF;
    let transmitted = u16::from_be_bytes([frame[last - 1], frame[last]]);
    feed(&deframer, &mut rec, &frame, &FrameContext::default());
    assert!(rec.data_out.is_empty());
    let events = &rec.events;
    assert_eq!(events[0].0, EVENTID_INVALID_CRC);
    assert_eq!(events[0].1, LogSeverity::WarningHi);
    assert_eq!(events[0].2, vec![computed, transmitted]);
    assert_eq!(rec.errors, vec![FrameError::TcInvalidCrc]);
}

/// The bypass and control flags and the frame sequence number are never
/// examined (F Prime uses Type-BD frames).
#[test]
fn flags_and_sequence_number_are_not_checked() {
    let (deframer, mut rec) = build();
    let payload = [0x01u8, 0x02];
    let total = (MIN_TC_FRAME_SIZE + payload.len()) as u16;
    let mut frame = Vec::new();
    // Bypass CLEAR, control command SET.
    frame.extend_from_slice(
        &TCHeader::build_flags_and_sc_id(false, true, SPACECRAFT_ID).to_be_bytes(),
    );
    frame.extend_from_slice(&TCHeader::build_vc_id_and_length(0, total).to_be_bytes());
    frame.push(0xAB); // arbitrary frame sequence number
    frame.extend_from_slice(&payload);
    let crc = Crc16::compute(&frame);
    frame.extend_from_slice(&crc.to_be_bytes());
    feed(&deframer, &mut rec, &frame, &FrameContext::default());
    assert_eq!(rec.data_out[0].0, payload.to_vec());
    assert!(rec.events.is_empty());
}

/// `errorNotify` is optional.
#[test]
fn tc_deframer_error_notify_is_optional() {
    let mut rec = Recorder::default();
    let deframer = TcDeframer::new();
    feed(&deframer, &mut rec,
        &tc_frame(0x0001, 0, &[0x01]),
        &FrameContext::default(),
    );
    assert!(rec.errors.is_empty());
    assert_eq!(rec.events.len(), 1);
    assert_eq!(rec.data_return.len(), 1);
}

/// dataReturnIn passes straight through to dataReturnOut.
#[test]
fn tc_deframer_data_return_in_passthrough() {
    let (deframer, mut rec) = build();
    let ctx = FrameContext {
        apid: Apid::FwPacketCommand,
        ..FrameContext::default()
    };
    let mut out = Vec::new();
    deframer.data_return_in(buffer_of(b"field"), &ctx, &mut out);
    rec.take(out);
    let ret = &rec.data_return;
    assert_eq!(ret[0].0, b"field");
    assert_eq!(ret[0].1, ctx);
}

/// Downlink `SpacePacketFramer` -> `TmFramer`, then uplink
/// `TcDeframer` -> `SpacePacketDeframer`, recovering the original
/// payload and the context fields the Space Packet header carries.
#[test]
fn ccsds_round_trip_recovers_payload_and_context() {
    let payload = b"HELLO CCSDS";
    let downlink_ctx = FrameContext {
        apid: Apid::FwPacketTelem,
        has_sec_hdr: true,
        sequence_flags: 0b11,
        vc_id: 1,
        ..FrameContext::default()
    };

    // ---- Downlink: payload -> Space Packet -> TM transfer frame ----
    let mut apid_mgr = ApidManager::new();
    let mut sp_framer = SpacePacketFramer::new();
    let mut tm_framer = TmFramer::new();

    // Burn one sequence count so the round trip carries a non-zero one.
    assert_eq!(apid_mgr.get_apid_seq_count_in(Apid::FwPacketTelem), 0);

    let data = buffer_of(payload);
    let frame_buffer = Buffer::allocate(SpacePacketFramer::frame_size(&data) as usize);
    assert!(SpacePacketFramer::takes_packet(&data, &frame_buffer));
    let count = apid_mgr.get_apid_seq_count_in(downlink_ctx.apid);
    let mut packets = Vec::new();
    sp_framer.data_in(data, &downlink_ctx, frame_buffer, count, &mut packets);

    let mut frames = Vec::new();
    for action in packets {
        if let SpacePacketFramerAction::DataOut { data, context } = action {
            let mut out = Vec::new();
            tm_framer.data_in(data, &context, &mut out);
            for action in out {
                if let TmFramerAction::DataOut { data, .. } = action {
                    frames.push(data.to_vec());
                }
            }
        }
    }
    assert_eq!(frames.len(), 1);
    let tm_frame = frames[0].clone();
    assert_eq!(tm_frame.len(), 1024);
    assert_eq!(Crc16::compute(&tm_frame), 0);

    // The Space Packet sits at the TM data field origin.
    let space_packet_len = SpacePacketHeader::SERIALIZED_SIZE + payload.len();
    let space_packet =
        &tm_frame[TMHeader::SERIALIZED_SIZE..TMHeader::SERIALIZED_SIZE + space_packet_len];
    // Everything after it up to the trailer is the idle packet.
    assert_eq!(
        tm_frame[TMHeader::SERIALIZED_SIZE + space_packet_len
            ..TMHeader::SERIALIZED_SIZE + space_packet_len + 2],
        [0x07, 0xFF]
    );
    assert!(
        tm_frame[TMHeader::SERIALIZED_SIZE + space_packet_len + 6..TRAILER_OFFSET]
            .iter()
            .all(|&b| b == 0x44)
    );

    // ---- Uplink: wrap the same Space Packet in a TC frame ----
    let tc = tc_frame(SPACECRAFT_ID, 1, space_packet);

    let mut uplink_mgr = ApidManager::new();
    let tc_deframer = TcDeframer::new();
    let sp_deframer = SpacePacketDeframer::new();
    let mut fields = Vec::new();
    tc_deframer.data_in(buffer_of(&tc), &FrameContext::default(), &mut fields);
    let mut out = Vec::new();
    for action in fields {
        if let TcDeframerAction::DataOut { data, context } = action {
            let mut recovered = Vec::new();
            sp_deframer.data_in(data, &context, &mut recovered);
            for action in recovered {
                match action {
                    SpacePacketDeframerAction::ValidateApidSeqCount { apid, sequence_count } => {
                        let mut events = Vec::new();
                        uplink_mgr.validate_apid_seq_count_in(apid, sequence_count, &mut events);
                    }
                    SpacePacketDeframerAction::DataOut { data, context } => {
                        out.push((data.to_vec(), context));
                    }
                    other => panic!("unexpected output {other:?}"),
                }
            }
        }
    }
    assert_eq!(out.len(), 1);
    assert_eq!(out[0].0, payload);
    // The context fields the Space Packet header carries survive the
    // round trip.
    assert_eq!(out[0].1.apid, downlink_ctx.apid);
    assert_eq!(out[0].1.has_sec_hdr, downlink_ctx.has_sec_hdr);
    assert_eq!(out[0].1.sequence_flags, downlink_ctx.sequence_flags);
    assert_eq!(out[0].1.sequence_count, 1);
}

/// Every buffer leaves once: its data field handed on, or the frame as it came.
#[test]
fn every_frame_buffer_leaves_once() {
    let good = tc_frame(SPACECRAFT_ID, 0, &[9, 8, 7]);
    let mut bad = good.clone();
    bad[6] ^= 0x10;
    for (frame, taken) in [(good, true), (bad, false), (vec![1, 2, 3], false)] {
        let (deframer, _) = build();
        let mut out = Vec::new();
        deframer.data_in(buffer_of(&frame), &FrameContext::default(), &mut out);
        let mut left = 0;
        for action in out {
            match action {
                TcDeframerAction::DataOut { data, .. } => {
                    assert!(taken);
                    assert_eq!(data.to_vec(), vec![9, 8, 7]);
                    assert_eq!(data.into_storage(), frame);
                    left += 1;
                }
                TcDeframerAction::DataReturnOut { data, .. } => {
                    assert!(!taken);
                    assert_eq!(data.to_vec(), frame);
                    left += 1;
                }
                _ => {}
            }
        }
        assert_eq!(left, 1);
    }
}
