//! The buffer pool.
use fprime_svc::buffer_manager::{
    Action, BufferBin, BufferManager, BufferManagerEvent, CHANID_CURR_BUFFS, CHANID_EMPTY_BUFFS,
    CHANID_HI_BUFFS, CHANID_NO_BUFFS, CHANID_TOTAL_BUFFS, EVENTID_NO_BUFFS_AVAILABLE,
    EVENTID_NULL_EMPTY_BUFFER, MAX_NUM_BINS,
};
use fprime_svc::fw::buffer::Buffer;
use fprime_svc::fw::types::LogSeverity;

const ID_BASE: u32 = 0x800;
const MGR_ID: u16 = 0x0102;

/// The pool, and what it did, output by output.
struct Harness {
    comp: BufferManager,
    events: Vec<(u32, LogSeverity, Vec<u8>)>,
    texts: Vec<(u32, String)>,
    tlm: Vec<(u32, Vec<u8>)>,
}

fn build() -> Harness {
    Harness {
        comp: BufferManager::new(),
        events: Vec::new(),
        texts: Vec::new(),
        tlm: Vec::new(),
    }
}

impl Harness {
    fn take(&mut self, out: Vec<Action>) {
        for action in out {
            match action {
                Action::Event(event) => {
                    let id = ID_BASE + event.id();
                    self.events.push((id, event.severity(), event.args()));
                    let text = String::from_utf8(event.text()).unwrap();
                    self.texts.push((id, text));
                }
                Action::Tlm { id, value } => {
                    self.tlm.push((ID_BASE + id, value.to_be_bytes().to_vec()));
                }
            }
        }
    }

    fn setup(&mut self, bins: &[BufferBin]) {
        assert!(self.comp.takes_bins(bins));
        self.comp.setup(MGR_ID, bins);
        assert!(self.comp.was_setup());
    }

    fn get(&mut self, size: u64) -> Buffer {
        assert!(self.comp.can_lend(size));
        let mut out = Vec::new();
        let buffer = self.comp.buffer_get_callee_in(size, &mut out);
        self.take(out);
        buffer
    }

    fn send_back(&mut self, buffer: Buffer) {
        assert!(self.comp.takes_back(&buffer));
        let mut out = Vec::new();
        self.comp.buffer_send_in(buffer, &mut out);
        self.take(out);
    }

    fn sched(&mut self) {
        let mut out = Vec::new();
        self.comp.sched_in(&mut out);
        self.take(out);
    }
}

/// Two buffers of 16 bytes, then one of 64.
fn bins() -> Vec<BufferBin> {
    vec![
        BufferBin { buffer_size: 16, num_buffers: 2 },
        BufferBin { buffer_size: 64, num_buffers: 1 },
    ]
}

fn ctx(index: u32) -> u32 {
    (u32::from(MGR_ID) << 16) | index
}

#[test]
fn first_fit_allocation_and_context_encoding() {
    let mut h = build();
    h.setup(&bins());

    let b0 = h.get(10);
    assert!(b0.is_valid());
    assert_eq!(b0.size(), 10);
    assert_eq!(b0.capacity(), 16);
    assert_eq!(b0.context(), ctx(0));

    let b1 = h.get(16);
    assert_eq!(b1.capacity(), 16);
    assert_eq!(b1.context(), ctx(1));

    // Small request now spills into the 64-byte slot (first fit).
    let b2 = h.get(1);
    assert_eq!(b2.capacity(), 64);
    assert_eq!(b2.size(), 1);
    assert_eq!(b2.context(), ctx(2));
}

#[test]
fn oversized_request_skips_small_slots() {
    let mut h = build();
    h.setup(&bins());
    // 17 bytes cannot use the 16-byte slots: goes straight to slot 2.
    let b = h.get(17);
    assert_eq!(b.capacity(), 64);
    assert_eq!(b.context(), ctx(2));
}

#[test]
fn exhaustion_returns_invalid_buffer_with_throttled_event() {
    let mut h = build();
    h.setup(&bins());
    let _keep: Vec<Buffer> = (0..3).map(|_| h.get(8)).collect();
    // Pool exhausted: 12 failed requests, only 10 events (throttle 10).
    for _ in 0..12 {
        let b = h.get(8);
        assert!(!b.is_valid());
        assert_eq!(b.size(), 0);
        assert_eq!(b.capacity(), 0);
    }
    let events = &h.events;
    assert_eq!(events.len(), 10);
    let abs_id = ID_BASE + EVENTID_NO_BUFFS_AVAILABLE;
    assert_eq!(events[0].0, abs_id);
    assert_eq!(events[0].1, LogSeverity::WarningHi);
    // arg is the FwSizeType (u64 BE) requested size
    assert_eq!(events[0].2, 8u64.to_be_bytes().to_vec());
    let texts = &h.texts;
    assert_eq!(texts[0].1, "No available buffers of size 8");
}

#[test]
fn request_larger_than_any_slot_fails_even_when_pool_empty() {
    let mut h = build();
    h.setup(&bins());
    let b = h.get(65);
    assert!(!b.is_valid());
    assert_eq!(h.events.len(), 1);
}

#[test]
fn return_lifecycle_recycles_the_slot() {
    let mut h = build();
    h.setup(&bins());
    let b = h.get(12);
    assert_eq!(b.context(), ctx(0));
    // The user writes through the window.
    h.send_back(b.overwritten(&[0x5A; 12]));
    // Same slot is handed out again (first fit).
    let b_again = h.get(12);
    assert_eq!(b_again.context(), ctx(0));
    // Storage was recycled, not reallocated: user bytes persist.
    assert_eq!(b_again.to_vec(), vec![0x5A; 12]);
    h.send_back(b_again);
    assert_eq!(h.comp.curr_buffs(), 0);
    assert_eq!(h.comp.high_water(), 1);
}

#[test]
fn shrunk_buffer_return_is_accepted() {
    let mut h = build();
    h.setup(&bins());
    let mut b = h.get(16);
    b.set_size(0); // users may shrink, even to zero
    h.send_back(b);
    assert_eq!(h.comp.curr_buffs(), 0);
}

#[test]
fn empty_return_counts_and_emits_null_empty_buffer() {
    let mut h = build();
    h.setup(&bins());
    // 12 empty returns -> emptyBuffs = 12, 10 events (throttle 10).
    for _ in 0..12 {
        h.send_back(Buffer::empty());
    }
    assert_eq!(h.comp.empty_buffs(), 12);
    let events = &h.events;
    assert_eq!(events.len(), 10);
    let abs_id = ID_BASE + EVENTID_NULL_EMPTY_BUFFER;
    assert_eq!(events[0].0, abs_id);
    assert_eq!(events[0].1, LogSeverity::WarningHi);
    assert!(events[0].2.is_empty());
    assert_eq!(
        h.texts[0].1,
        "Received null pointer and zero size buffer"
    );
}

#[test]
fn telemetry_ids_values_and_on_change_suppression() {
    let mut h = build();
    h.setup(&bins());
    let b = h.get(8);
    let _fail = h.get(100); // no_buffs = 1
    h.send_back(Buffer::empty()); // empty_buffs = 1

    h.sched();
    {
        let tlm = &h.tlm;
        // All channels are written the first time.
        let expected: Vec<(u32, Vec<u8>)> = vec![
            (
                ID_BASE + CHANID_HI_BUFFS,
                1u32.to_be_bytes().to_vec(),
            ),
            (
                ID_BASE + CHANID_CURR_BUFFS,
                1u32.to_be_bytes().to_vec(),
            ),
            (
                ID_BASE + CHANID_TOTAL_BUFFS,
                3u32.to_be_bytes().to_vec(),
            ),
            (
                ID_BASE + CHANID_NO_BUFFS,
                1u32.to_be_bytes().to_vec(),
            ),
            (
                ID_BASE + CHANID_EMPTY_BUFFS,
                1u32.to_be_bytes().to_vec(),
            ),
        ];
        assert_eq!(*tlm, expected);
    }

    // Nothing changed: on-change suppresses every channel.
    h.sched();
    assert_eq!(h.tlm.len(), 5);

    // Return the buffer: only CurrBuffs changes (HiBuffs stays 1).
    h.send_back(b);
    h.sched();
    let tlm = &h.tlm;
    assert_eq!(tlm.len(), 6);
    assert_eq!(
        tlm[5],
        (
            ID_BASE + CHANID_CURR_BUFFS,
            0u32.to_be_bytes().to_vec()
        )
    );
}

#[test]
fn high_water_tracks_peak_allocation() {
    let mut h = build();
    h.setup(&bins());
    let b0 = h.get(8);
    let b1 = h.get(8);
    let b2 = h.get(8);
    h.send_back(b0);
    h.send_back(b1);
    h.send_back(b2);
    assert_eq!(h.comp.high_water(), 3);
    assert_eq!(h.comp.curr_buffs(), 0);
}

#[test]
fn cleanup_then_resetup_works() {
    let mut h = build();
    h.setup(&bins());
    h.comp.cleanup();
    h.comp.cleanup(); // idempotent
    h.setup(&bins());
    assert!(h.get(8).is_valid());
}

/// Buffers that were not lent, and pools that cannot be, are told apart beforehand.
#[test]
fn what_the_pool_refuses_is_known_beforehand() {
    let mut h = build();
    assert!(!h.comp.can_lend(8));
    assert!(!h.comp.takes_back(&Buffer::allocate(4)));
    let bin = BufferBin { buffer_size: 1, num_buffers: 1 };
    assert!(h.comp.takes_bins(&vec![bin; MAX_NUM_BINS]));
    assert!(!h.comp.takes_bins(&vec![bin; MAX_NUM_BINS + 1]));
    assert!(!h.comp.takes_bins(&[
        BufferBin { buffer_size: 1, num_buffers: 40_000 },
        BufferBin { buffer_size: 1, num_buffers: 30_000 },
    ]));

    h.setup(&bins());
    assert!(!h.comp.takes_bins(&bins()));
    let lent = h.get(8);
    let context = lent.context();
    assert!(h.comp.takes_back(&lent));
    // Another manager's number, a slot that does not exist, and foreign storage.
    let other = u32::from(MGR_ID + 1) << 16;
    assert!(!h.comp.takes_back(&Buffer::from_storage(vec![0; 16], other)));
    assert!(!h.comp.takes_back(&Buffer::from_storage(vec![0; 16], ctx(99))));
    assert!(!h.comp.takes_back(&Buffer::from_storage(vec![0; 5], context)));
    // A buffer cannot come back twice.
    h.send_back(lent);
    assert!(!h.comp.takes_back(&Buffer::from_storage(vec![0; 16], context)));
}
