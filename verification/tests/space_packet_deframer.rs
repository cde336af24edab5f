//! Taking space packets apart.
use fprime_svc::ccsds::apid_manager::{ApidManager, EVENTID_UNEXPECTED_SEQUENCE_COUNT};
use fprime_svc::ccsds::space_packet_deframer::{
    SpacePacketDeframer, SpacePacketDeframerAction, EVENTID_INVALID_LENGTH, EVENTID_INVALID_PACKET,
};
use fprime_svc::ccsds::types::FrameError;
use fprime_svc::fw::buffer::{Buffer, NO_CONTEXT};
use fprime_svc::fw::types::{Apid, FrameContext, LogSeverity, Pvn};

/// What the deframer did, output by output.
#[derive(Default)]
struct Recorder {
    data_out: Vec<(Vec<u8>, FrameContext)>,
    data_return: Vec<(Vec<u8>, FrameContext)>,
    events: Vec<(u32, LogSeverity, Vec<u64>)>,
    errors: Vec<FrameError>,
    validations: Vec<(Apid, u16)>,
}

impl Recorder {
    fn take(&mut self, out: Vec<SpacePacketDeframerAction>, mut mgr: Option<&mut ApidManager>) {
        for action in out {
            match action {
                SpacePacketDeframerAction::Event(event) => {
                    let args: Vec<u64> = event
                        .args()
                        .chunks(8)
                        .map(|c| c.iter().fold(0u64, |n, b| n << 8 | u64::from(*b)))
                        .collect();
                    self.events.push((event.id(), event.severity(), args));
                }
                SpacePacketDeframerAction::ErrorNotify(error) => self.errors.push(error),
                SpacePacketDeframerAction::ValidateApidSeqCount { apid, sequence_count } => {
                    self.validations.push((apid, sequence_count));
                    if let Some(mgr) = mgr.as_deref_mut() {
                        let mut events = Vec::new();
                        mgr.validate_apid_seq_count_in(apid, sequence_count, &mut events);
                        for event in events {
                            self.events.push((event.id(), event.severity(), Vec::new()));
                        }
                    }
                }
                SpacePacketDeframerAction::DataOut { data, context } => {
                    self.data_out.push((data.to_vec(), context));
                }
                SpacePacketDeframerAction::DataReturnOut { data, context } => {
                    self.data_return.push((data.to_vec(), context));
                }
            }
        }
    }
}

fn build() -> (SpacePacketDeframer, Recorder) {
    let mut deframer = SpacePacketDeframer::new();
    deframer.connect_error_notify();
    (deframer, Recorder::default())
}

/// A buffer that holds `bytes` and has room for at least one byte.
fn buffer_of(bytes: &[u8]) -> Buffer {
    let mut storage = bytes.to_vec();
    if storage.is_empty() {
        storage.push(0);
    }
    let mut b = Buffer::from_storage(storage, NO_CONTEXT);
    b.set_size(bytes.len());
    b
}

fn feed(deframer: &SpacePacketDeframer, rec: &mut Recorder, bytes: &[u8], context: &FrameContext) {
    let mut out = Vec::new();
    deframer.data_in(buffer_of(bytes), context, &mut out);
    rec.take(out, None);
}

/// As `feed`, with the received counts checked by `mgr`.
fn feed_checked(
    deframer: &SpacePacketDeframer,
    rec: &mut Recorder,
    mgr: &mut ApidManager,
    bytes: &[u8],
    context: &FrameContext,
) {
    let mut out = Vec::new();
    deframer.data_in(buffer_of(bytes), context, &mut out);
    rec.take(out, Some(mgr));
}

/// A space packet from raw header words and a payload.
fn packet(ident: u16, seq_control: u16, length_token: u16, payload: &[u8]) -> Vec<u8> {
    let mut bytes = Vec::new();
    bytes.extend_from_slice(&ident.to_be_bytes());
    bytes.extend_from_slice(&seq_control.to_be_bytes());
    bytes.extend_from_slice(&length_token.to_be_bytes());
    bytes.extend_from_slice(payload);
    bytes
}

/// Happy path: header stripped, context filled from the header, payload
/// emitted as the same allocation.
#[test]
fn valid_packet_emits_payload_and_context() {
    let (deframer, mut rec) = build();
    // APID 0x0000 (COMMAND), sec hdr set, seq flags 0b10, count 0x1234.
    let bytes = packet(0x0800, 0x9234, 3, &[0xAA, 0xBB, 0xCC, 0xDD]);
    feed(&deframer, &mut rec, &bytes, &FrameContext::default());

    let out = &rec.data_out;
    assert_eq!(out.len(), 1);
    // The length token (3) means 4 data octets: the trailing byte is
    // included, nothing more.
    assert_eq!(out[0].0, vec![0xAA, 0xBB, 0xCC, 0xDD]);
    assert_eq!(out[0].1.apid, Apid::FwPacketCommand);
    assert!(out[0].1.has_sec_hdr);
    assert_eq!(out[0].1.sequence_flags, 0b10);
    assert_eq!(out[0].1.sequence_count, 0x1234);
    // The received count went to the ApidManager, and its return value
    // (0xBEEF) was discarded.
    assert_eq!(
        rec.validations,
        vec![(Apid::FwPacketCommand, 0x1234)]
    );
    assert!(rec.events.is_empty());
    assert!(rec.errors.is_empty());
    assert!(rec.data_return.is_empty());
}

/// A short length token windows the buffer down: trailing bytes are cut.
#[test]
fn trailing_bytes_beyond_the_length_token_are_trimmed() {
    let (deframer, mut rec) = build();
    let bytes = packet(0x0001, 0xC000, 0, &[0x11, 0x22, 0x33]);
    feed(&deframer, &mut rec, &bytes, &FrameContext::default());
    let out = &rec.data_out;
    assert_eq!(out[0].0, vec![0x11]);
    assert_eq!(out[0].1.apid, Apid::FwPacketTelem);
}

/// The other context members survive untouched (the deframer never
/// writes vcId, pvn, saIndex or comQueueIndex).
#[test]
fn untouched_context_members_are_preserved() {
    let (deframer, mut rec) = build();
    let ctx = FrameContext {
        com_queue_index: 7,
        vc_id: 5,
        pvn: Pvn::EncapsulationPacketProtocol,
        sa_index: 0x1234,
        send_now: true,
        ..FrameContext::default()
    };
    feed(&deframer, &mut rec, &packet(0x0002, 0x0000, 0, &[0x01]), &ctx);
    let out = &rec.data_out;
    assert_eq!(out[0].1.com_queue_index, 7);
    assert_eq!(out[0].1.vc_id, 5);
    assert_eq!(out[0].1.pvn, Pvn::EncapsulationPacketProtocol);
    assert_eq!(out[0].1.sa_index, 0x1234);
    assert!(out[0].1.send_now);
}

/// A 6-byte header-only packet is rejected (strictly greater
/// than the header size is required).
#[test]
fn header_only_packet_is_rejected() {
    let (deframer, mut rec) = build();
    let ctx = FrameContext {
        apid: Apid::FwPacketHand,
        ..FrameContext::default()
    };
    feed(&deframer, &mut rec, &packet(0x0000, 0x0000, 0, &[]), &ctx);
    assert!(rec.data_out.is_empty());
    let ret = &rec.data_return;
    assert_eq!(ret.len(), 1);
    assert_eq!(ret[0].1, ctx); // original context
    assert_eq!(rec.events[0].0, EVENTID_INVALID_PACKET);
    assert_eq!(rec.events[0].1, LogSeverity::WarningHi);
    assert_eq!(
        rec.errors,
        vec![FrameError::SpInvalidPacket]
    );
    // No sequence-count validation happens on a drop.
    assert!(rec.validations.is_empty());
}

/// An empty buffer is rejected the same way.
#[test]
fn tiny_buffer_is_rejected() {
    let (deframer, mut rec) = build();
    feed(&deframer, &mut rec, &[0x00], &FrameContext::default());
    assert!(rec.data_out.is_empty());
    assert_eq!(rec.data_return.len(), 1);
    assert_eq!(
        rec.errors,
        vec![FrameError::SpInvalidPacket]
    );
}

/// A non-zero Packet Version Number is rejected.
#[test]
fn non_zero_pvn_is_rejected() {
    let (deframer, mut rec) = build();
    // PVN = 0b111 in bits [15:13].
    feed(&deframer, &mut rec,
        &packet(0xE001, 0xC000, 0, &[0x42]),
        &FrameContext::default(),
    );
    assert!(rec.data_out.is_empty());
    assert_eq!(rec.events[0].0, EVENTID_INVALID_PACKET);
    assert_eq!(
        rec.errors,
        vec![FrameError::SpInvalidPacket]
    );
}

/// The packet TYPE bit is deliberately not validated: a
/// telecommand packet is deframed like any other.
#[test]
fn packet_type_bit_is_not_checked() {
    let (deframer, mut rec) = build();
    feed(&deframer, &mut rec,
        &packet(0x1003, 0xC000, 0, &[0x42]),
        &FrameContext::default(),
    );
    let out = &rec.data_out;
    assert_eq!(out.len(), 1);
    assert_eq!(out[0].1.apid, Apid::FwPacketFile);
}

/// A length token longer than the received data is `InvalidLength`
/// carrying (transmitted, actual) as FwSizeType args.
#[test]
fn over_long_length_token_is_rejected() {
    let (deframer, mut rec) = build();
    let ctx = FrameContext::default();
    // Token 9 => 10 octets claimed, only 2 present.
    feed(&deframer, &mut rec, &packet(0x0001, 0xC000, 9, &[0x01, 0x02]), &ctx);
    assert!(rec.data_out.is_empty());
    let events = &rec.events;
    assert_eq!(events[0].0, EVENTID_INVALID_LENGTH);
    assert_eq!(events[0].1, LogSeverity::WarningHi);
    assert_eq!(events[0].2, vec![10, 2]);
    assert_eq!(
        rec.errors,
        vec![FrameError::SpInvalidLength]
    );
    assert_eq!(rec.data_return[0].1, ctx);
}

/// The maximum length token widens instead of wrapping to zero.
#[test]
fn maximum_length_token_does_not_wrap() {
    let (deframer, mut rec) = build();
    feed(&deframer, &mut rec,
        &packet(0x0001, 0xC000, 0xFFFF, &[0x01, 0x02, 0x03]),
        &FrameContext::default(),
    );
    let events = &rec.events;
    assert_eq!(events[0].0, EVENTID_INVALID_LENGTH);
    assert_eq!(events[0].2, vec![65536, 3]);
}

/// An 11-bit APID that is not a declared constant becomes
/// INVALID_UNINITIALIZED, while the idle APID 0x7FF IS declared and is
/// forwarded.
#[test]
fn undeclared_apid_becomes_invalid_uninitialized() {
    let (deframer, mut rec) = build();
    feed(&deframer, &mut rec,
        &packet(0x0123, 0xC000, 0, &[0x01]),
        &FrameContext::default(),
    );
    assert_eq!(
        rec.data_out[0].1.apid,
        Apid::InvalidUninitialized
    );
    assert_eq!(
        rec.validations,
        vec![(Apid::InvalidUninitialized, 0)]
    );
}

/// Uplinked idle packets are forwarded, not dropped.
#[test]
fn idle_apid_is_forwarded() {
    let (deframer, mut rec) = build();
    feed(&deframer, &mut rec,
        &packet(0x07FF, 0xC000, 0, &[0x44]),
        &FrameContext::default(),
    );
    let out = &rec.data_out;
    assert_eq!(out[0].1.apid, Apid::SppIdlePacket);
    assert_eq!(out[0].0, vec![0x44]);
}

/// `errorNotify` is optional: an unconnected port simply emits nothing
/// (the event and the drop still happen).
#[test]
fn space_packet_deframer_error_notify_is_optional() {
    let mut rec = Recorder::default();
    let deframer = SpacePacketDeframer::new();
    feed(&deframer, &mut rec, &[0x00, 0x01], &FrameContext::default());
    assert!(rec.errors.is_empty());
    assert_eq!(rec.events.len(), 1);
    assert_eq!(rec.data_return.len(), 1);
}

/// dataReturnIn passes straight through to dataReturnOut.
#[test]
fn space_packet_deframer_data_return_in_passthrough() {
    let (deframer, mut rec) = build();
    let ctx = FrameContext {
        apid: Apid::FwPacketFile,
        ..FrameContext::default()
    };
    let mut out = Vec::new();
    deframer.data_return_in(buffer_of(b"pay"), &ctx, &mut out);
    rec.take(out, None);
    let ret = &rec.data_return;
    assert_eq!(ret.len(), 1);
    assert_eq!(ret[0].0, b"pay");
    assert_eq!(ret[0].1, ctx);
}

/// With a real ApidManager, an out-of-order count is reported but the
/// packet is still forwarded carrying the RECEIVED count.
#[test]
fn sequence_gap_is_reported_but_packet_is_forwarded() {
    let mut rec = Recorder::default();
    let deframer = SpacePacketDeframer::new();
    let mut mgr = ApidManager::new();

    // count 0 is expected first: silent.
    feed_checked(&deframer, &mut rec, &mut mgr,
        &packet(0x0000, 0xC000, 0, &[0x01]),
        &FrameContext::default(),
    );
    assert!(rec.events.is_empty());
    // Jump to 5: the ApidManager reports it.
    feed_checked(&deframer, &mut rec, &mut mgr,
        &packet(0x0000, 0xC005, 0, &[0x02]),
        &FrameContext::default(),
    );
    let events = &rec.events;
    assert_eq!(events.len(), 1);
    assert_eq!(events[0].0, EVENTID_UNEXPECTED_SEQUENCE_COUNT);
    let out = &rec.data_out;
    assert_eq!(out.len(), 2);
    assert_eq!(out[1].1.sequence_count, 5);
}
