//! A rate group, driven through its queue messages.
use fprime_svc::active_rate_group::{
    Action, ActiveRateGroup, Content, RateGroupEvent, CHANID_RG_CYCLE_SLIPS, CHANID_RG_MAX_TIME,
    EVENTID_RATE_GROUP_CYCLE_SLIP, EVENTID_RATE_GROUP_STARTED, EVENTID_RATE_GROUP_TIME_GET_ERROR,
    MSG_SIZE, RATE_GROUP_MEMBER_OUT_PORTS,
};
use fprime_svc::fw::queue::{BoundedQueue, Enqueued, QueueMode, QueueOverflowMode};
use fprime_svc::fw::time::RawTime;
use fprime_svc::fw::types::{LogSeverity, MsgDispatchStatus};
use std::collections::VecDeque;

const ID_BASE: u32 = 0x400;

/// The group, its queue, and what it did, output by output.
struct Harness {
    comp: ActiveRateGroup,
    queue: VecDeque<Vec<u8>>,
    /// Whether the next tick comes while the members run.
    slipping: bool,
    /// What the clock shows in nanoseconds, one reading after the other.
    clock: Vec<u32>,
    clock_status: u8,
    readings: usize,
    events: Vec<(u32, LogSeverity, Vec<u8>)>,
    texts: Vec<(u32, String)>,
    tlm: Vec<(u32, Vec<u8>)>,
    sched: Vec<(usize, u32)>,
    pings: Vec<u32>,
}

fn contexts() -> [u32; RATE_GROUP_MEMBER_OUT_PORTS] {
    std::array::from_fn(|i| 100 + i as u32)
}

fn build(connect_members: usize) -> Harness {
    let mut comp = ActiveRateGroup::new();
    for port in 0..connect_members {
        comp.connect_member(port);
    }
    assert!(!comp.is_configured());
    comp.configure(&contexts());
    assert!(comp.is_configured());
    Harness {
        comp,
        queue: VecDeque::new(),
        slipping: false,
        clock: vec![5_000, 9_000, 3_000, 9_999, 12_000, 1_000, 70_000, 70_000, 2_000, 80_000],
        clock_status: 0,
        readings: 0,
        events: Vec::new(),
        texts: Vec::new(),
        tlm: Vec::new(),
        sched: Vec::new(),
        pings: Vec::new(),
    }
}

impl Harness {
    fn take(&mut self, out: Vec<Action>) {
        for action in out {
            match action {
                Action::Event(event) => {
                    let id = ID_BASE + event.id();
                    self.events.push((id, event.severity(), event.args()));
                    self.texts.push((id, String::from_utf8(event.text()).unwrap()));
                }
                Action::Tlm { id, value } => {
                    self.tlm.push((ID_BASE + id, value.to_be_bytes().to_vec()));
                }
                Action::RateGroupMemberOut { port, context } => {
                    self.sched.push((port, context));
                    if self.slipping {
                        self.tick(0, &RawTime::from_parts(0, 0));
                    }
                }
                Action::FinishCycle { cycle_start } => {
                    let end = RawTime::from_parts(0, self.clock[self.readings % self.clock.len()]);
                    self.readings += 1;
                    let mut out = Vec::new();
                    self.comp.finish_cycle(&cycle_start, &end, self.clock_status, &mut out);
                    self.take(out);
                }
                Action::PingOut { key } => self.pings.push(key),
            }
        }
    }

    fn tick(&mut self, port: i16, start: &RawTime) {
        let message = self.comp.cycle_in(port, start);
        self.queue.push_back(message);
    }

    /// Dispatches the message at the head of the queue.
    fn dispatch_one(&mut self) {
        let message = self.queue.pop_front().unwrap();
        let msg_type = i32::from_be_bytes([message[0], message[1], message[2], message[3]]);
        assert!(Content::decode(msg_type, &message[4..]).is_some());
        let mut out = Vec::new();
        let status = self.comp.dispatch_message(msg_type, &message[4..], &mut out);
        assert_eq!(status, MsgDispatchStatus::OK);
        self.take(out);
    }
}

#[test]
fn cycle_envelope_bytes_are_byte_exact() {
    let mut h = build(0);
    h.tick(2, &RawTime::from_parts(0x01020304, 0x0A0B0C0D));
    let message = h.queue.pop_front().unwrap();
    assert!(message.len() <= MSG_SIZE);
    assert_eq!(
        message,
        vec![
            0x00, 0x00, 0x00, 0x01, // a tick
            0x00, 0x02, // port 2
            0x01, 0x02, 0x03, 0x04, // seconds
            0x0A, 0x0B, 0x0C, 0x0D, // nanoseconds
        ]
    );
}

#[test]
fn cycle_invokes_connected_members_with_contexts() {
    let mut h = build(3);
    h.tick(0, &RawTime::from_parts(1, 0));
    h.dispatch_one();
    assert_eq!(
        h.sched,
        vec![(0, 100), (1, 101), (2, 102)]
    );
    // RgMaxTime emitted on the first cycle (on-change, no previous).
    let tlm = &h.tlm;
    assert_eq!(tlm.len(), 1);
    assert_eq!(tlm[0].0, ID_BASE + CHANID_RG_MAX_TIME);
}

#[test]
fn rg_max_time_tlm_values_are_strictly_increasing() {
    // On-change: RgMaxTime is written every cycle but only emitted
    // when the high-water value changes -> emitted values must be
    // strictly increasing.
    let mut h = build(1);
    for _ in 0..10 {
        h.tick(0, &RawTime::from_parts(0, 0));
        h.dispatch_one();
    }
    let tlm = &h.tlm;
    let max_values: Vec<u32> = tlm
        .iter()
        .filter(|(id, _)| *id == ID_BASE + CHANID_RG_MAX_TIME)
        .map(|(_, bytes)| u32::from_be_bytes(bytes.as_slice().try_into().unwrap()))
        .collect();
    assert!(!max_values.is_empty());
    assert!(max_values.windows(2).all(|w| w[0] < w[1]));
}

#[test]
fn cycle_slip_detected_via_sender_thread_flag() {
    let mut h = build(1);
    h.slipping = true;
    h.tick(0, &RawTime::from_parts(0, 0));
    h.dispatch_one(); // member re-enqueued a tick mid-cycle -> slip
    h.slipping = false; // stop re-triggering

    let events = &h.events;
    assert_eq!(events.len(), 1);
    assert_eq!(
        events[0].0,
        ID_BASE + EVENTID_RATE_GROUP_CYCLE_SLIP
    );
    assert_eq!(events[0].1, LogSeverity::WarningHi);
    assert_eq!(events[0].2, vec![0, 0, 0, 0]); // slipped on cycle 0
    assert_eq!(
        h.texts[0].1,
        "Rate group cycle slipped on cycle 0"
    );
    // RgCycleSlips tlm emitted with value 1.
    let tlm = &h.tlm;
    let slips: Vec<Vec<u8>> = tlm
        .iter()
        .filter(|(id, _)| *id == ID_BASE + CHANID_RG_CYCLE_SLIPS)
        .map(|(_, v)| v.clone())
        .collect();
    assert_eq!(slips, vec![vec![0, 0, 0, 1]]);
}

#[test]
fn overrun_throttle_counts_up_and_down() {
    let mut h = build(1);
    h.slipping = true;
    // 8 slipping cycles: the member re-enqueues each time, so after the
    // first external tick every dispatch slips. Only the first 5 emit
    // the event (manual throttle at OVERRUN_THROTTLE=5).
    h.tick(0, &RawTime::from_parts(0, 0));
    for _ in 0..8 {
        h.dispatch_one();
    }
    // Stop slipping; drain the one queued tick plus clean ticks to
    // count the throttle back down (one decrement per clean cycle).
    h.slipping = false;
    h.dispatch_one(); // queued tick, clean now
    let slip_id = ID_BASE + EVENTID_RATE_GROUP_CYCLE_SLIP;
    let count_events = |g: &Harness| {
        g.events
            .iter()
            .filter(|e| e.0 == slip_id)
            .count()
    };
    assert_eq!(count_events(&h), 5);

    // 4 clean cycles decrement the throttle 5 -> 1; the next slip may
    // emit again.
    for _ in 0..4 {
        h.tick(0, &RawTime::from_parts(0, 0));
        h.dispatch_one();
    }
    h.slipping = true;
    h.tick(0, &RawTime::from_parts(0, 0));
    h.dispatch_one();
    h.slipping = false;
    h.dispatch_one(); // drain re-enqueued tick
    assert_eq!(count_events(&h), 6);
}

#[test]
fn drop_policy_discards_when_queue_full() {
    let mut small = ActiveRateGroup::new();
    small.configure(&contexts());
    let mut queue: BoundedQueue<Vec<u8>> =
        BoundedQueue::new(2, QueueMode::Fifo, QueueOverflowMode::DropNewest);
    let mut dropped = 0;
    for _ in 0..5 {
        let message = small.cycle_in(0, &RawTime::from_parts(0, 0));
        if matches!(queue.enqueue(message), Enqueued::Refused(_)) {
            dropped += 1;
        }
    }
    assert_eq!(dropped, 3);
}

#[test]
fn ping_is_echoed_from_component_thread() {
    let mut h = build(1);
    let message = h.comp.ping_in(0, 0xFEED);
    h.queue.push_back(message);
    h.dispatch_one();
    assert_eq!(h.pings, vec![0xFEED]);
}

#[test]
fn full_lifecycle_preamble_logs_rate_group_started() {
    let mut h = build(2);
    let mut out = Vec::new();
    h.comp.preamble(&mut out);
    h.take(out);
    h.tick(0, &RawTime::from_parts(5, 0));
    h.dispatch_one();
    let events = &h.events;
    assert_eq!(
        events[0],
        (
            ID_BASE + EVENTID_RATE_GROUP_STARTED,
            LogSeverity::Diagnostic,
            vec![]
        )
    );
    assert_eq!(
        h.texts[0],
        (
            ID_BASE + EVENTID_RATE_GROUP_STARTED,
            "Rate group started.".to_string()
        )
    );
    // Members ran once each.
    assert_eq!(h.sched, vec![(0, 100), (1, 101)]);
}

/// A clock that cannot be read is reported five times, whatever else happens.
#[test]
fn unreadable_clock_is_reported_five_times() {
    let mut h = build(1);
    h.clock_status = 2;
    for _ in 0..8 {
        h.tick(0, &RawTime::from_parts(0, 0));
        h.dispatch_one();
    }
    let id = ID_BASE + EVENTID_RATE_GROUP_TIME_GET_ERROR;
    let reports: Vec<_> = h.events.iter().filter(|e| e.0 == id).collect();
    assert_eq!(reports.len(), 5);
    assert_eq!(reports[0].1, LogSeverity::WarningHi);
    assert_eq!(reports[0].2, vec![2]);
}

/// The longest cycle is told in microseconds, and only when it grows.
#[test]
fn longest_cycle_is_told_when_it_grows() {
    let mut h = build(0);
    for _ in 0..10 {
        h.tick(0, &RawTime::from_parts(0, 0));
        h.dispatch_one();
    }
    let values: Vec<Vec<u8>> = h.tlm.iter().map(|t| t.1.clone()).collect();
    assert_eq!(
        values,
        vec![
            vec![0, 0, 0, 5],
            vec![0, 0, 0, 9],
            vec![0, 0, 0, 12],
            vec![0, 0, 0, 70],
            vec![0, 0, 0, 80],
        ]
    );
}

/// Messages read back as they were written, and others are errors.
#[test]
fn rate_group_messages_read_back() {
    let cycle = Content::Cycle { cycle_start: RawTime::from_parts(7, 8) };
    let bytes = cycle.encode(3);
    assert_eq!(Content::decode(1, &bytes[4..]), Some(cycle));
    assert_eq!(Content::decode(2, &[0, 0, 0, 0, 0, 9]), Some(Content::Ping { key: 9 }));
    assert_eq!(Content::decode(1, &bytes[4..bytes.len() - 1]), None);
    assert_eq!(Content::decode(3, &bytes[4..]), None);
    let mut h = build(0);
    let mut out = Vec::new();
    assert_eq!(h.comp.dispatch_message(3, &bytes[4..], &mut out), MsgDispatchStatus::Error);
    assert!(out.is_empty());
}
