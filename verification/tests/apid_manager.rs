//! Sequence counts per application.
use fprime_svc::ccsds::apid_manager::{ApidManager, EVENTID_UNEXPECTED_SEQUENCE_COUNT};
use fprime_svc::fw::types::{Apid, LogSeverity};

/// Event identifier, severity, and the two arguments as they go out.
type Recorded = Vec<(u32, LogSeverity, u16, u16)>;

const ALL_APIDS: [Apid; 12] = [
    Apid::FwPacketCommand,
    Apid::FwPacketTelem,
    Apid::FwPacketLog,
    Apid::FwPacketFile,
    Apid::FwPacketPacketizedTlm,
    Apid::FwPacketDp,
    Apid::FwPacketIdle,
    Apid::FwPacketCfdp,
    Apid::FwPacketHand,
    Apid::FwPacketUnknown,
    Apid::SppIdlePacket,
    Apid::InvalidUninitialized,
];

fn build() -> (ApidManager, Recorded) {
    (ApidManager::new(), Vec::new())
}

fn get(mgr: &mut ApidManager, apid: Apid) -> u16 {
    mgr.get_apid_seq_count_in(apid)
}

fn validate(mgr: &mut ApidManager, rec: &mut Recorded, apid: Apid, received: u16) -> u16 {
    let mut out = Vec::new();
    let count = mgr.validate_apid_seq_count_in(apid, received, &mut out);
    for event in out {
        let args = event.args();
        assert_eq!(args.len(), 4);
        rec.push((
            event.id(),
            event.severity(),
            u16::from_be_bytes([args[0], args[1]]),
            u16::from_be_bytes([args[2], args[3]]),
        ));
    }
    count
}

/// The first packet for a never-seen APID carries count 0, then 1, 2...
#[test]
fn first_count_for_new_apid_is_zero() {
    let (mut mgr, rec) = build();
    assert_eq!(get(&mut mgr, Apid::FwPacketTelem), 0);
    assert_eq!(get(&mut mgr, Apid::FwPacketTelem), 1);
    assert_eq!(get(&mut mgr, Apid::FwPacketTelem), 2);
    assert!(rec.is_empty());
}

/// Each APID counts independently.
#[test]
fn counters_are_independent_per_apid() {
    let (mut mgr, _) = build();
    assert_eq!(get(&mut mgr, Apid::FwPacketTelem), 0);
    assert_eq!(get(&mut mgr, Apid::FwPacketLog), 0);
    assert_eq!(get(&mut mgr, Apid::FwPacketTelem), 1);
    assert_eq!(get(&mut mgr, Apid::FwPacketFile), 0);
    assert_eq!(get(&mut mgr, Apid::FwPacketLog), 1);
    assert_eq!(get(&mut mgr, Apid::FwPacketTelem), 2);
    assert_eq!(get(&mut mgr, Apid::FwPacketFile), 1);
}

/// Every APID constant fits the table (capacity = NUM_CONSTANTS).
#[test]
fn table_holds_every_apid_constant() {
    let (mut mgr, _) = build();
    assert_eq!(ApidManager::MAX_TRACKED_APIDS, 12);
    for apid in ALL_APIDS {
        assert_eq!(get(&mut mgr, apid), 0);
    }
    for apid in ALL_APIDS {
        assert_eq!(get(&mut mgr, apid), 1);
    }
}

/// The counter is 14 bits: 0x3FFF wraps back to 0.
#[test]
fn sequence_count_wraps_at_fourteen_bits() {
    assert_eq!(ApidManager::calculate_next_seq_count(0), 1);
    assert_eq!(ApidManager::calculate_next_seq_count(0x3FFE), 0x3FFF);
    assert_eq!(ApidManager::calculate_next_seq_count(0x3FFF), 0);
    // Values above the 14-bit range still wrap by modulus, never panic.
    assert_eq!(ApidManager::calculate_next_seq_count(0xFFFF), 0);

    let (mut mgr, mut rec) = build();
    // Drive the APID's counter to the top through the validate port.
    assert_eq!(validate(&mut mgr, &mut rec, Apid::FwPacketCommand, 0x3FFF), 0x3FFF);
    assert_eq!(get(&mut mgr, Apid::FwPacketCommand), 0);
    assert_eq!(get(&mut mgr, Apid::FwPacketCommand), 1);
}

/// Matching counts validate silently and always return the received one.
#[test]
fn matching_sequence_count_emits_nothing() {
    let (mut mgr, mut rec) = build();
    assert_eq!(validate(&mut mgr, &mut rec, Apid::FwPacketCommand, 0), 0);
    assert_eq!(validate(&mut mgr, &mut rec, Apid::FwPacketCommand, 1), 1);
    assert_eq!(validate(&mut mgr, &mut rec, Apid::FwPacketCommand, 2), 2);
    assert!(rec.is_empty());
}

/// A gap emits WARNING_LO `UnexpectedSequenceCount(transmitted,
/// expected)`, returns the RECEIVED count, and resyncs so the next
/// in-order packet is silent.
#[test]
fn mismatch_emits_event_and_resyncs() {
    let (mut mgr, mut rec) = build();
    assert_eq!(validate(&mut mgr, &mut rec, Apid::FwPacketCommand, 0), 0);
    // Ground jumped to 7 (packets 1..6 lost).
    assert_eq!(validate(&mut mgr, &mut rec, Apid::FwPacketCommand, 7), 7);
    assert_eq!(
        rec,
        vec![(
            EVENTID_UNEXPECTED_SEQUENCE_COUNT,
            LogSeverity::WarningLo,
            7,
            1
        )]
    );
    // Resynced: 8 is now expected.
    assert_eq!(validate(&mut mgr, &mut rec, Apid::FwPacketCommand, 8), 8);
    assert_eq!(rec.len(), 1);
}

/// The resync wraps at 14 bits too: after receiving 0x3FFF the next
/// expected count is 0, not 0x4000.
#[test]
fn resync_wraps_at_fourteen_bits() {
    let (mut mgr, mut rec) = build();
    // First-ever validate for this APID expects 0, so 0x3FFF mismatches.
    assert_eq!(validate(&mut mgr, &mut rec, Apid::FwPacketLog, 0x3FFF), 0x3FFF);
    assert_eq!(
        rec,
        vec![(
            EVENTID_UNEXPECTED_SEQUENCE_COUNT,
            LogSeverity::WarningLo,
            0x3FFF,
            0
        )]
    );
    // Resynced to (0x3FFF + 1) & 0x3FFF == 0: the next packet is silent.
    assert_eq!(validate(&mut mgr, &mut rec, Apid::FwPacketLog, 0), 0);
    assert_eq!(rec.len(), 1);
}

/// Both ports share one table: a framer allocation advances the count
/// the deframer validates against.
#[test]
fn get_and_validate_share_one_table() {
    let (mut mgr, mut rec) = build();
    assert_eq!(get(&mut mgr, Apid::FwPacketTelem), 0); // stores 1
    assert_eq!(validate(&mut mgr, &mut rec, Apid::FwPacketTelem, 1), 1); // expects 1: ok
    assert!(rec.is_empty());
    assert_eq!(get(&mut mgr, Apid::FwPacketTelem), 2);
}

/// The counts handed out to interleaved callers are 0, 1, 2, ... with no gap and no
/// repetition.
#[test]
fn interleaved_allocation_hands_out_consecutive_counts() {
    let (mut mgr, _) = build();
    let mut counts: Vec<u16> = Vec::new();
    for i in 0..200 {
        counts.push(get(&mut mgr, Apid::FwPacketDp));
        if i % 3 == 0 {
            get(&mut mgr, Apid::FwPacketFile);
        }
    }
    assert_eq!(counts, (0..200u16).collect::<Vec<_>>());
}
