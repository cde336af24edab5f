//! Values that the components share.
use fprime_svc::ccsds::crc16::Crc16;
use fprime_svc::fw::buffer::{Buffer, NO_CONTEXT};
use fprime_svc::fw::bytes;
use fprime_svc::fw::bytes::SerializeStatus;
use fprime_svc::fw::counter;
use fprime_svc::fw::crc32::Crc32;
use fprime_svc::fw::decimal;
use fprime_svc::fw::envelope;
use fprime_svc::fw::queue::{BoundedQueue, Enqueued, QueueMode, QueueOverflowMode};
use fprime_svc::fw::throttle::EventThrottle;
use fprime_svc::fw::time::{RawTime, Time, TimeBase, TimeComparison};
use fprime_svc::fw::types::{Apid, CmdResponse, FileStatus, FrameContext, Pvn, Success};

/// The check values of the two checksums.
#[test]
fn checksums_of_the_check_string() {
    assert_eq!(Crc16::compute(b"123456789"), 0x29B1);
    assert_eq!(Crc16::compute(b""), 0xFFFF);
    assert_eq!(Crc16::compute_prefix(b"123456789abc", 9), 0x29B1);
    assert_eq!(Crc32::hash_u32(b"123456789"), 0xCBF4_3926);
    assert_eq!(Crc32::hash_u32(b""), 0);
}

/// A checksum does not depend on how its input is cut.
#[test]
fn checksum_in_pieces() {
    let mut crc = Crc32::new();
    crc.update(b"12345");
    crc.update(b"");
    crc.update(b"6789");
    assert_eq!(crc.finalize(), 0xCBF4_3926);
}

/// A message followed by its checksum checks out as zero.
#[test]
fn checksum_residue_is_zero() {
    let mut message = b"frame".to_vec();
    let crc = Crc16::compute(&message);
    bytes::push_u16(&mut message, crc);
    assert_eq!(Crc16::compute(&message), 0);
    message[1] ^= 0x40;
    assert_ne!(Crc16::compute(&message), 0);
}

/// Integers are written with their high byte first, and read back.
#[test]
fn integers_read_back() {
    let mut out = Vec::new();
    bytes::push_u8(&mut out, 0x01);
    bytes::push_u16(&mut out, 0x0203);
    bytes::push_u32(&mut out, 0x0405_0607);
    bytes::push_u64(&mut out, 0x0809_0A0B_0C0D_0E0F);
    bytes::push_i16(&mut out, -2);
    bytes::push_i32(&mut out, -3);
    assert_eq!(
        out,
        vec![
            1, 2, 3, 4, 5, 6, 7, 8, 9, 10, 11, 12, 13, 14, 15, 0xFF, 0xFE, 0xFF, 0xFF, 0xFF, 0xFD
        ]
    );
    assert_eq!(bytes::read_u8(&out, 0), Ok(0x01));
    assert_eq!(bytes::read_u16(&out, 1), Ok(0x0203));
    assert_eq!(bytes::read_u32(&out, 3), Ok(0x0405_0607));
    assert_eq!(bytes::read_u64(&out, 7), Ok(0x0809_0A0B_0C0D_0E0F));
    assert_eq!(bytes::read_u16(&out, 15).map(bytes::to_signed16), Ok(-2));
    assert_eq!(bytes::read_u32(&out, 17).map(bytes::to_signed32), Ok(-3));
    assert_eq!(bytes::to_bits16(-32768), 0x8000);
    assert_eq!(bytes::to_bits32(-1), 0xFFFF_FFFF);
}

/// Reading where nothing is left, and where too little is left, are different errors.
#[test]
fn reads_past_the_end_are_errors() {
    let buf = [1u8, 2, 3];
    assert_eq!(bytes::read_u8(&buf, 3), Err(SerializeStatus::DeserBufferEmpty));
    assert_eq!(bytes::read_u32(&buf, 0), Err(SerializeStatus::DeserSizeMismatch));
    assert_eq!(bytes::read_u64(&buf, 3), Err(SerializeStatus::DeserBufferEmpty));
    assert_eq!(bytes::read_u16(&buf, 2), Err(SerializeStatus::DeserSizeMismatch));
    assert_eq!(SerializeStatus::DeserSizeMismatch.as_repr(), 5);
}

/// A string carries its length, and one that is too long is refused.
#[test]
fn strings_read_back() {
    let mut out = Vec::new();
    bytes::push_string(&mut out, b"abc");
    assert_eq!(out, vec![0, 3, b'a', b'b', b'c']);
    assert_eq!(bytes::read_string(&out, 0, 3), Ok(b"abc".to_vec()));
    assert!(bytes::read_string(&out, 0, 2).is_err());
    assert!(bytes::read_string(&out[..4], 0, 3).is_err());
    assert!(bytes::same_bytes(b"abc", b"abc"));
    assert!(!bytes::same_bytes(b"abc", b"abd"));
    assert_eq!(bytes::copy_range(b"abcdef", 2, 4), b"cd".to_vec());
}

/// Numbers in decimal digits, with and without zeros in front.
#[test]
fn decimal_digits() {
    assert_eq!(decimal::to_digits(0), b"0".to_vec());
    assert_eq!(decimal::to_digits(4294967295), b"4294967295".to_vec());
    assert_eq!(decimal::to_padded(42, 6), b"000042".to_vec());
    assert_eq!(decimal::to_padded(1234567, 6), b"1234567".to_vec());
}

/// Counters start over.
#[test]
fn counters_start_over() {
    assert_eq!(counter::bump(7), 8);
    assert_eq!(counter::bump(u32::MAX), 0);
    assert_eq!(counter::advance(u32::MAX, 3), 2);
    assert_eq!(counter::offset(0x105, 0x100), 5);
    assert_eq!(counter::offset(0, 1), u32::MAX);
}

/// An event is let through a number of times, until it is let through again.
#[test]
fn throttled_events() {
    let mut throttle = EventThrottle::new(2);
    assert!(throttle.should_emit());
    assert!(throttle.should_emit());
    assert!(!throttle.should_emit());
    throttle.clear();
    assert!(throttle.should_emit());
}

/// The order in which entries leave, and which one goes when there is no room.
#[test]
fn queues_in_either_order() {
    let mut fifo: BoundedQueue<u64> =
        BoundedQueue::new(2, QueueMode::Fifo, QueueOverflowMode::DropNewest);
    assert!(matches!(fifo.enqueue(1), Enqueued::Accepted));
    assert!(matches!(fifo.enqueue(2), Enqueued::Accepted));
    assert!(matches!(fifo.enqueue(3), Enqueued::Refused(3)));
    assert_eq!(fifo.high_water_mark(), 2);
    assert_eq!(fifo.peek(), Some(&1));
    assert_eq!(fifo.dequeue(), Some(1));
    assert_eq!(fifo.dequeue(), Some(2));
    assert_eq!(fifo.dequeue(), None);
    fifo.clear_high_water_mark();
    assert_eq!(fifo.high_water_mark(), 0);

    let mut lifo: BoundedQueue<u64> =
        BoundedQueue::new(2, QueueMode::Lifo, QueueOverflowMode::DropOldest);
    assert!(matches!(lifo.enqueue(1), Enqueued::Accepted));
    assert!(matches!(lifo.enqueue(2), Enqueued::Accepted));
    assert!(matches!(lifo.enqueue(3), Enqueued::Discarded(1)));
    assert_eq!(lifo.size(), 2);
    assert_eq!(lifo.dequeue(), Some(3));
    assert_eq!(lifo.dequeue(), Some(2));
}

/// Times on one clock are ordered, and a duration moves one on.
#[test]
fn times_and_durations() {
    let a = Time::new(TimeBase::TbWorkstationTime, 0, 10, 900_000);
    let mut b = a;
    b.add_duration(2, 200_000);
    assert_eq!((b.get_seconds(), b.get_useconds()), (13, 100_000));
    assert_eq!(Time::compare(&a, &b), TimeComparison::Lt);
    assert_eq!(Time::compare(&b, &a), TimeComparison::Gt);
    assert_eq!(Time::compare(&a, &a), TimeComparison::Eq);
    let other = Time::new(TimeBase::TbProcTime, 0, 10, 900_000);
    assert_eq!(Time::compare(&a, &other), TimeComparison::Incomparable);
    assert_eq!(TimeBase::from_repr(TimeBase::TbScTime.as_repr()), Some(TimeBase::TbScTime));
    assert_eq!(TimeBase::from_repr(77), None);
}

/// The microseconds between two readings, whichever is later.
#[test]
fn microseconds_between_readings() {
    let a = RawTime::from_parts(1, 500);
    let b = RawTime::from_parts(2, 2_500);
    assert_eq!(a.get_diff_usec(&b), 1_000_002);
    assert_eq!(b.get_diff_usec(&a), 1_000_002);
    assert_eq!(a.get_diff_usec(&RawTime::from_parts(u32::MAX, 0)), u32::MAX);
}

/// A window on the storage of a buffer.
#[test]
fn buffer_windows() {
    let buffer = Buffer::from_storage(vec![1, 2, 3, 4, 5], 9).narrowed(1, 3);
    assert_eq!(buffer.to_vec(), vec![2, 3, 4]);
    assert_eq!((buffer.size(), buffer.capacity(), buffer.context()), (3, 5, 9));
    assert_eq!(buffer.byte(2), 4);
    let buffer = buffer.overwritten(&[7, 8]);
    assert_eq!(buffer.to_vec(), vec![7, 8]);
    assert_eq!(buffer.into_storage(), vec![1, 7, 8, 4, 5]);
    assert!(!Buffer::empty().is_valid());
    assert!(Buffer::allocate(1).is_valid());
    assert_eq!(Buffer::holding(b"xy").context(), NO_CONTEXT);
}

/// The start of every queued message, and the two forms that several components share.
#[test]
fn message_envelopes() {
    let mut out = Vec::new();
    envelope::push_header(&mut out, 5, -1);
    assert_eq!(out, vec![0, 0, 0, 5, 0xFF, 0xFF]);
    let mut out = Vec::new();
    envelope::push_packet(&mut out, &[0xAB], 1);
    assert_eq!(out, vec![0, 1, 0xAB, 0, 0, 0, 1]);
    let mut out = Vec::new();
    envelope::push_command(&mut out, 2, 3, &[0xCD]);
    assert_eq!(out, vec![0, 0, 0, 2, 0, 0, 0, 3, 0, 1, 0xCD]);
}

/// Enumerations and their numbers.
#[test]
fn numbers_of_enumerations() {
    assert_eq!(Apid::from_repr(0x7FF), Apid::SppIdlePacket);
    assert_eq!(Apid::from_repr(0x123), Apid::InvalidUninitialized);
    assert_eq!(Apid::FwPacketHand.as_repr(), 0xFE);
    for response in [
        CmdResponse::OK,
        CmdResponse::InvalidOpcode,
        CmdResponse::ValidationError,
        CmdResponse::FormatError,
        CmdResponse::ExecutionError,
        CmdResponse::Busy,
    ] {
        assert_eq!(CmdResponse::from_repr(response.as_repr()), Some(response));
    }
    assert_eq!(CmdResponse::from_repr(6), None);
    assert_eq!(Success::from_repr(Success::Failure.as_repr()), Some(Success::Failure));
    assert_eq!(Success::from_repr(2), None);
    assert_eq!(FileStatus::OpOk.as_repr(), 0);
    assert_eq!(FileStatus::DoesntExist.as_repr(), 1);
    let context = FrameContext::default();
    assert_eq!((context.vc_id, context.pvn), (1, Pvn::SpacePacketProtocol));
}
