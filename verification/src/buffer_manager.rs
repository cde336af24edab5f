//! A pool of buffers of fixed sizes.
use vstd::prelude::*;

use crate::fw::buffer::{Buffer, BufferView};
use crate::fw::bytes;
use crate::fw::counter;
use crate::fw::decimal;
use crate::fw::outputs;
use crate::fw::queue;
use crate::fw::text;
use crate::fw::throttle::EventThrottle;
use crate::fw::types::LogSeverity;

verus! {

/// How many bins a pool can be made of.
pub const MAX_NUM_BINS: usize = 10;

/// How many buffers a pool can hold.
pub const MAX_NUM_BUFFERS: usize = 0xFFFF;

/// `NoBuffsAvailable`.
pub const EVENTID_NO_BUFFS_AVAILABLE: u32 = 0;

/// `NullEmptyBuffer`.
pub const EVENTID_NULL_EMPTY_BUFFER: u32 = 1;

/// How often each event is reported.
pub const EVENT_THROTTLE: u32 = 10;

/// Telemetry channel of the number of buffers.
pub const CHANID_TOTAL_BUFFS: u32 = 0;

/// Telemetry channel of the number of buffers on loan.
pub const CHANID_CURR_BUFFS: u32 = 1;

/// Telemetry channel of the largest number of buffers on loan.
pub const CHANID_HI_BUFFS: u32 = 2;

/// Telemetry channel of the number of requests that failed.
pub const CHANID_NO_BUFFS: u32 = 3;

/// Telemetry channel of the number of empty buffers that came back.
pub const CHANID_EMPTY_BUFFS: u32 = 4;

/// A number of buffers of one size.
#[derive(Debug, Clone, Copy, PartialEq, Eq, Structural)]
pub struct BufferBin {
    /// How large each buffer is.
    pub buffer_size: u64,
    /// How many there are.
    pub num_buffers: u16,
}

/// What the pool reports.
#[derive(Debug, Clone, Copy, PartialEq, Eq, Structural)]
pub enum BufferManagerEvent {
    /// No free buffer is large enough.
    NoBuffsAvailable { size: u64 },
    /// A buffer without storage came back.
    NullEmptyBuffer,
}

impl BufferManagerEvent {
    /// The event identifier, relative to the component's base.
    pub open spec fn spec_id(self) -> u32 {
        match self {
            BufferManagerEvent::NoBuffsAvailable { .. } => EVENTID_NO_BUFFS_AVAILABLE,
            BufferManagerEvent::NullEmptyBuffer => EVENTID_NULL_EMPTY_BUFFER,
        }
    }

    /// The arguments on the wire.
    pub open spec fn wire(self) -> Seq<u8> {
        match self {
            BufferManagerEvent::NoBuffsAvailable { size } => bytes::be64(size),
            BufferManagerEvent::NullEmptyBuffer => Seq::empty(),
        }
    }

    /// The event identifier, relative to the component's base.
    pub fn id(&self) -> (r: u32)
        ensures
            r == self.spec_id(),
    {
        match self {
            BufferManagerEvent::NoBuffsAvailable { .. } => EVENTID_NO_BUFFS_AVAILABLE,
            BufferManagerEvent::NullEmptyBuffer => EVENTID_NULL_EMPTY_BUFFER,
        }
    }

    /// How serious the event is.
    pub fn severity(&self) -> (r: LogSeverity)
        ensures
            r == LogSeverity::WarningHi,
    {
        LogSeverity::WarningHi
    }

    /// The arguments on the wire.
    pub fn args(&self) -> (r: Vec<u8>)
        ensures
            r@ == self.wire(),
    {
        let mut out: Vec<u8> = Vec::new();
        match self {
            BufferManagerEvent::NoBuffsAvailable { size } => {
                bytes::push_u64(&mut out, *size);
            },
            BufferManagerEvent::NullEmptyBuffer => {},
        }
        assert(out@ =~= self.wire());
        out
    }
}

impl BufferManagerEvent {
    /// The text of the event.
    pub open spec fn spec_text(self) -> Seq<u8> {
        match self {
            BufferManagerEvent::NoBuffsAvailable { size } =>
                text::words("No available buffers of size "@) + decimal::digits(size as nat),
            BufferManagerEvent::NullEmptyBuffer =>
                text::words("Received null pointer and zero size buffer"@),
        }
    }

    /// The text of the event.
    pub fn text(&self) -> (r: Vec<u8>)
        ensures
            r@ == self.spec_text(),
    {
        match self {
            BufferManagerEvent::NoBuffsAvailable { size } => {
                let mut out: Vec<u8> = text::begin("No available buffers of size ");
                text::push_number(&mut out, *size as u64);
                out
            },
            BufferManagerEvent::NullEmptyBuffer => {
                text::begin("Received null pointer and zero size buffer")
            },
        }
    }
}

/// What the pool asks its surroundings to do.
#[derive(Debug, Clone, Copy, PartialEq, Eq, Structural)]
pub enum Action {
    /// Report an event.
    Event(BufferManagerEvent),
    /// Write a telemetry channel, whose number is relative to the component's base.
    Tlm { id: u32, value: u32 },
}

/// A place for a buffer.
#[verifier::ext_equal]
pub struct SlotView {
    /// The storage, while the buffer is not on loan.
    pub storage: Option<Seq<u8>>,
    /// How large the buffer is.
    pub size: nat,
}

/// The state of the pool.
#[verifier::ext_equal]
pub struct PoolState {
    /// Whether there is a pool.
    pub setup: bool,
    /// Whether there has been one.
    pub was_setup: bool,
    /// The number by which the pool knows its buffers again.
    pub mgr_id: u16,
    /// The places, bin by bin.
    pub slots: Seq<SlotView>,
    /// The largest number of buffers on loan.
    pub high_water: u32,
    /// The number of buffers on loan.
    pub curr_buffs: u32,
    /// How many requests failed.
    pub no_buffs: u32,
    /// How many empty buffers came back.
    pub empty_buffs: u32,
    /// What was written to telemetry last, in the order in which it is written.
    pub last_tlm: Seq<Option<u32>>,
    /// Limits the reports of failed requests.
    pub no_buffs_throttle: EventThrottle,
    /// Limits the reports of empty buffers.
    pub null_empty_throttle: EventThrottle,
}

/// How many buffers the bins call for.
pub open spec fn total(bins: Seq<BufferBin>) -> nat
    decreases bins.len(),
{
    if bins.len() == 0 {
        0
    } else {
        total(bins.drop_last()) + bins.last().num_buffers as nat
    }
}

/// A place with a zeroed buffer of a given size.
pub open spec fn fresh_slot(size: nat) -> SlotView {
    SlotView { storage: Some(Seq::new(size, |i: int| 0u8)), size }
}

/// The places that the bins call for, bin by bin.
pub open spec fn fresh_slots(bins: Seq<BufferBin>) -> Seq<SlotView>
    decreases bins.len(),
{
    if bins.len() == 0 {
        Seq::empty()
    } else {
        fresh_slots(bins.drop_last()) + Seq::new(
            bins.last().num_buffers as nat,
            |i: int| fresh_slot(bins.last().buffer_size as nat),
        )
    }
}

/// How many buffers are on loan.
pub open spec fn loans(slots: Seq<SlotView>) -> nat
    decreases slots.len(),
{
    if slots.len() == 0 {
        0
    } else {
        loans(slots.drop_last()) + (if slots.last().storage is None {
            1nat
        } else {
            0nat
        })
    }
}

/// The first place from `from` on with a free buffer that is large enough; the number of
/// places where there is none.
pub open spec fn first_fit(slots: Seq<SlotView>, size: nat, from: int) -> int
    decreases slots.len() - from,
{
    if from >= slots.len() {
        slots.len() as int
    } else if slots[from].storage is Some && size <= slots[from].size {
        from
    } else {
        first_fit(slots, size, from + 1)
    }
}

/// The number that goes with the buffer of a place.
pub open spec fn context_of(mgr_id: u16, index: int) -> u32 {
    (mgr_id * 0x1_0000 + index) as u32
}

impl PoolState {
    /// The conditions that every operation keeps. Free buffers have their full size, and
    /// the number of buffers on loan is not below what the places show; it is above after
    /// a pool was taken down with buffers on loan.
    pub open spec fn valid(self) -> bool {
        &&& self.slots.len() <= MAX_NUM_BUFFERS
        &&& !self.setup ==> self.slots.len() == 0
        &&& self.last_tlm.len() == 5
        &&& forall|i: int|
            0 <= i < self.slots.len() && (#[trigger] self.slots[i]).storage is Some
                ==> self.slots[i].storage->0.len() == self.slots[i].size
        &&& loans(self.slots) <= self.curr_buffs <= self.high_water
    }

    /// Before there is a pool.
    pub open spec fn initial() -> PoolState {
        PoolState {
            setup: false,
            was_setup: false,
            mgr_id: 0,
            slots: Seq::empty(),
            high_water: 0,
            curr_buffs: 0,
            no_buffs: 0,
            empty_buffs: 0,
            last_tlm: seq![None, None, None, None, None],
            no_buffs_throttle: EventThrottle { limit: EVENT_THROTTLE, count: 0 },
            null_empty_throttle: EventThrottle { limit: EVENT_THROTTLE, count: 0 },
        }
    }

    /// Whether a buffer of a given size can be asked for: there is a pool, and one more
    /// loan can be counted where there is a buffer to lend.
    pub open spec fn can_lend(self, size: nat) -> bool {
        &&& self.setup
        &&& first_fit(self.slots, size, 0) < self.slots.len() ==> self.curr_buffs < u32::MAX
    }

    /// Whether a buffer can come back: it is empty, or on loan from this pool.
    pub open spec fn takes_back(self, buffer: BufferView) -> bool {
        &&& self.setup
        &&& buffer.storage.len() == 0 && buffer.size == 0 || {
            let index = (buffer.context % 0x1_0000) as int;
            &&& index < self.slots.len()
            &&& buffer.context / 0x1_0000 == self.mgr_id
            &&& self.slots[index].storage is None
            &&& buffer.storage.len() == self.slots[index].size
        }
    }

    /// The state after the buffer of a place went on loan.
    pub open spec fn lent(self, index: int) -> PoolState {
        let curr = (self.curr_buffs + 1) as u32;
        PoolState {
            slots: self.slots.update(index, SlotView { storage: None, ..self.slots[index] }),
            curr_buffs: curr,
            high_water: queue::larger(self.high_water as nat, curr as nat) as u32,
            ..self
        }
    }

    /// The buffer of a place, with a window of a given size.
    pub open spec fn loan(self, index: int, size: nat) -> BufferView {
        BufferView {
            storage: self.slots[index].storage->0,
            offset: 0,
            size,
            context: context_of(self.mgr_id, index),
        }
    }

    /// The state after a request that failed.
    pub open spec fn refused(self) -> PoolState {
        PoolState {
            no_buffs: counter::bumped(self.no_buffs),
            no_buffs_throttle: self.no_buffs_throttle.tried(),
            ..self
        }
    }

    /// The state after a buffer came back.
    pub open spec fn taken_back(self, buffer: BufferView) -> PoolState {
        if buffer.storage.len() == 0 && buffer.size == 0 {
            PoolState {
                empty_buffs: counter::bumped(self.empty_buffs),
                null_empty_throttle: self.null_empty_throttle.tried(),
                ..self
            }
        } else {
            let index = (buffer.context % 0x1_0000) as int;
            PoolState {
                slots: self.slots.update(
                    index,
                    SlotView { storage: Some(buffer.storage), ..self.slots[index] },
                ),
                curr_buffs: (self.curr_buffs - 1) as u32,
                ..self
            }
        }
    }

    /// What a request of a given size gets: the first free buffer that is large enough, or
    /// the buffer without storage.
    pub open spec fn given(self, size: nat) -> BufferView {
        let index = first_fit(self.slots, size, 0);
        if index < self.slots.len() {
            self.loan(index, size)
        } else {
            BufferView::empty()
        }
    }

    /// The state after a request of a given size.
    pub open spec fn after_request(self, size: nat) -> PoolState {
        let index = first_fit(self.slots, size, 0);
        if index < self.slots.len() {
            self.lent(index)
        } else {
            self.refused()
        }
    }

    /// What is reported of a request of a given size.
    pub open spec fn request_outputs(self, size: u64) -> Seq<Action> {
        if first_fit(self.slots, size as nat, 0) >= self.slots.len()
            && self.no_buffs_throttle.open() {
            seq![Action::Event(BufferManagerEvent::NoBuffsAvailable { size })]
        } else {
            Seq::empty()
        }
    }

    /// What is reported of a buffer that comes back.
    pub open spec fn return_outputs(self, buffer: BufferView) -> Seq<Action> {
        if buffer.storage.len() == 0 && buffer.size == 0 && self.null_empty_throttle.open() {
            seq![Action::Event(BufferManagerEvent::NullEmptyBuffer)]
        } else {
            Seq::empty()
        }
    }

    /// What is written to telemetry, in order.
    pub open spec fn tlm(self) -> Seq<Action> {
        seq![
            Action::Tlm { id: CHANID_HI_BUFFS, value: self.high_water },
            Action::Tlm { id: CHANID_CURR_BUFFS, value: self.curr_buffs },
            Action::Tlm { id: CHANID_TOTAL_BUFFS, value: self.slots.len() as u32 },
            Action::Tlm { id: CHANID_NO_BUFFS, value: self.no_buffs },
            Action::Tlm { id: CHANID_EMPTY_BUFFS, value: self.empty_buffs },
        ]
    }

    /// Those of the first `n` numbers that have changed since they were written.
    pub open spec fn changed(self, n: nat) -> Seq<Action>
        decreases n,
    {
        if n == 0 {
            Seq::empty()
        } else {
            let before = self.changed((n - 1) as nat);
            if self.last_tlm[n - 1] == Some(self.tlm()[n - 1]->value) {
                before
            } else {
                before.push(self.tlm()[n - 1])
            }
        }
    }

    /// The state after the numbers were written.
    pub open spec fn written(self) -> PoolState {
        PoolState { last_tlm: Seq::new(5, |i: int| Some(self.tlm()[i]->value)), ..self }
    }
}

/// A place for a buffer.
#[derive(Debug)]
pub struct Slot {
    storage: Option<Vec<u8>>,
    size: usize,
}

impl View for Slot {
    type V = SlotView;

    closed spec fn view(&self) -> SlotView {
        SlotView {
            storage: match self.storage {
                Some(storage) => Some(storage@),
                None => None,
            },
            size: self.size as nat,
        }
    }
}

/// Lends buffers of fixed sizes.
#[derive(Debug)]
pub struct BufferManager {
    setup: bool,
    was_setup: bool,
    mgr_id: u16,
    slots: Vec<Slot>,
    high_water: u32,
    curr_buffs: u32,
    no_buffs: u32,
    empty_buffs: u32,
    last_tlm: Vec<Option<u32>>,
    no_buffs_throttle: EventThrottle,
    null_empty_throttle: EventThrottle,
}

impl View for BufferManager {
    type V = PoolState;

    closed spec fn view(&self) -> PoolState {
        PoolState {
            setup: self.setup,
            was_setup: self.was_setup,
            mgr_id: self.mgr_id,
            slots: outputs::views(self.slots@),
            high_water: self.high_water,
            curr_buffs: self.curr_buffs,
            no_buffs: self.no_buffs,
            empty_buffs: self.empty_buffs,
            last_tlm: self.last_tlm@,
            no_buffs_throttle: self.no_buffs_throttle,
            null_empty_throttle: self.null_empty_throttle,
        }
    }
}

/// Zero bytes.
fn zeroed(n: usize) -> (r: Vec<u8>)
    ensures
        r@ == Seq::new(n as nat, |i: int| 0u8),
{
    let mut storage: Vec<u8> = Vec::new();
    let mut i: usize = 0;
    while i < n
        invariant
            i <= n,
            storage@ == Seq::new(i as nat, |k: int| 0u8),
        decreases n - i,
    {
        storage.push(0);
        i += 1;
        assert(storage@ =~= Seq::new(i as nat, |k: int| 0u8));
    }
    storage
}

/// Changing one place changes the number of loans by what it changes there.
proof fn lemma_loans_update(slots: Seq<SlotView>, k: int, v: SlotView)
    requires
        0 <= k < slots.len(),
    ensures
        loans(slots.update(k, v)) == loans(slots) + (if v.storage is None {
            1int
        } else {
            0int
        }) - (if slots[k].storage is None {
            1int
        } else {
            0int
        }),
        slots[k].storage is None ==> loans(slots) >= 1,
    decreases slots.len(),
{
    if k < slots.len() - 1 {
        lemma_loans_update(slots.drop_last(), k, v);
        assert(slots.update(k, v).drop_last() =~= slots.drop_last().update(k, v));
    } else {
        assert(slots.update(k, v).drop_last() =~= slots.drop_last());
    }
}

/// There are never more loans than places.
proof fn lemma_loans_bound(slots: Seq<SlotView>)
    ensures
        loans(slots) <= slots.len(),
    decreases slots.len(),
{
    if slots.len() > 0 {
        lemma_loans_bound(slots.drop_last());
    }
}

/// Nothing is on loan from new places, and there are as many as the bins call for.
proof fn lemma_fresh_slots(bins: Seq<BufferBin>)
    ensures
        fresh_slots(bins).len() == total(bins),
        forall|i: int|
            0 <= i < fresh_slots(bins).len() ==> {
                &&& (#[trigger] fresh_slots(bins)[i]).storage is Some
                &&& fresh_slots(bins)[i].storage->0.len() == fresh_slots(bins)[i].size
            },
    decreases bins.len(),
{
    if bins.len() > 0 {
        lemma_fresh_slots(bins.drop_last());
    }
}

/// Where everything is free, nothing is on loan.
proof fn lemma_no_loans(slots: Seq<SlotView>)
    requires
        forall|i: int| 0 <= i < slots.len() ==> (#[trigger] slots[i]).storage is Some,
    ensures
        loans(slots) == 0,
    decreases slots.len(),
{
    if slots.len() > 0 {
        lemma_no_loans(slots.drop_last());
    }
}

/// The first place that fits, as a fact about all places.
pub proof fn lemma_first_fit(slots: Seq<SlotView>, size: nat, from: int)
    requires
        0 <= from <= slots.len(),
    ensures
        ({
            let r = first_fit(slots, size, from);
            &&& from <= r <= slots.len()
            &&& forall|i: int|
                from <= i < r ==> (#[trigger] slots[i]).storage is None || size > slots[i].size
            &&& r < slots.len() ==> slots[r].storage is Some && size <= slots[r].size
        }),
    decreases slots.len() - from,
{
    if from < slots.len() && !(slots[from].storage is Some && size <= slots[from].size) {
        lemma_first_fit(slots, size, from + 1);
    }
}

impl BufferManager {
    /// The conditions that every operation keeps.
    pub open spec fn wf(self) -> bool {
        self@.valid()
    }

    /// No pool yet.
    pub fn new() -> (r: Self)
        ensures
            r.wf(),
            r@ == PoolState::initial(),
    {
        let last_tlm: Vec<Option<u32>> = vec![None, None, None, None, None];
        let r = BufferManager {
            setup: false,
            was_setup: false,
            mgr_id: 0,
            slots: Vec::new(),
            high_water: 0,
            curr_buffs: 0,
            no_buffs: 0,
            empty_buffs: 0,
            last_tlm,
            no_buffs_throttle: EventThrottle::new(EVENT_THROTTLE),
            null_empty_throttle: EventThrottle::new(EVENT_THROTTLE),
        };
        assert(r@ =~= PoolState::initial());
        r
    }

    /// Whether a pool can be made of the bins.
    pub fn takes_bins(&self, bins: &[BufferBin]) -> (r: bool)
        ensures
            r == (bins@.len() <= MAX_NUM_BINS && !self@.setup && total(bins@) <= MAX_NUM_BUFFERS
                && forall|i: int|
                0 <= i < bins@.len() ==> (#[trigger] bins@[i]).buffer_size <= usize::MAX),
    {
        if bins.len() > MAX_NUM_BINS || self.setup {
            return false;
        }
        let mut sum: u32 = 0;
        let mut i: usize = 0;
        while i < bins.len()
            invariant
                i <= bins@.len() <= MAX_NUM_BINS,
                sum == total(bins@.take(i as int)),
                sum <= i * 0xFFFF,
                forall|k: int| 0 <= k < i ==> (#[trigger] bins@[k]).buffer_size <= usize::MAX,
            decreases bins@.len() - i,
        {
            if bins[i].buffer_size > usize::MAX as u64 {
                assert(bins@[i as int].buffer_size > usize::MAX);
                return false;
            }
            sum = sum + bins[i].num_buffers as u32;
            i += 1;
            assert(bins@.take(i as int).drop_last() =~= bins@.take(i - 1));
        }
        assert(bins@.take(bins@.len() as int) =~= bins@);
        sum <= MAX_NUM_BUFFERS as u32
    }

    /// Makes the pool.
    pub fn setup(&mut self, mgr_id: u16, bins: &[BufferBin])
        requires
            old(self).wf(),
            bins@.len() <= MAX_NUM_BINS,
            !old(self)@.setup,
            total(bins@) <= MAX_NUM_BUFFERS,
            forall|i: int| 0 <= i < bins@.len() ==> (#[trigger] bins@[i]).buffer_size <= usize::MAX,
        ensures
            final(self).wf(),
            final(self)@ == (PoolState {
                setup: true,
                was_setup: true,
                mgr_id,
                slots: fresh_slots(bins@),
                ..old(self)@
            }),
    {
        let mut slots: Vec<Slot> = Vec::new();
        let mut i: usize = 0;
        assert(outputs::views(slots@) =~= fresh_slots(bins@.take(0)));
        while i < bins.len()
            invariant
                i <= bins@.len(),
                total(bins@) <= MAX_NUM_BUFFERS,
                forall|k: int|
                    0 <= k < bins@.len() ==> (#[trigger] bins@[k]).buffer_size <= usize::MAX,
                outputs::views(slots@) == fresh_slots(bins@.take(i as int)),
            decreases bins@.len() - i,
        {
            let ghost done = outputs::views(slots@);
            let size: usize = bins[i].buffer_size as usize;
            let count: u16 = bins[i].num_buffers;
            let mut k: u16 = 0;
            assert(outputs::views(slots@) =~= done + Seq::new(
                0,
                |n: int| fresh_slot(size as nat),
            ));
            while k < count
                invariant
                    k <= count,
                    outputs::views(slots@) == done + Seq::new(
                        k as nat,
                        |n: int| fresh_slot(size as nat),
                    ),
                decreases count - k,
            {
                let slot = Slot { storage: Some(zeroed(size)), size };
                assert(slot@ =~= fresh_slot(size as nat));
                outputs::emit(&mut slots, slot);
                k += 1;
                assert(outputs::views(slots@) =~= done + Seq::new(
                    k as nat,
                    |n: int| fresh_slot(size as nat),
                ));
            }
            i += 1;
            assert(bins@.take(i as int).drop_last() =~= bins@.take(i - 1));
            assert(outputs::views(slots@) =~= fresh_slots(bins@.take(i as int)));
        }
        assert(bins@.take(bins@.len() as int) =~= bins@);
        proof {
            lemma_fresh_slots(bins@);
            lemma_no_loans(fresh_slots(bins@));
        }
        self.mgr_id = mgr_id;
        self.slots = slots;
        self.setup = true;
        self.was_setup = true;
    }

    /// Takes the pool down.
    pub fn cleanup(&mut self)
        requires
            old(self).wf(),
            old(self)@.was_setup,
        ensures
            final(self).wf(),
            final(self)@ == (PoolState { setup: false, slots: Seq::empty(), ..old(self)@ }),
    {
        if self.setup {
            self.slots = Vec::new();
            self.setup = false;
        }
        assert(self@.slots =~= Seq::empty());
    }

    /// The first place with a free buffer that is large enough; the number of places where
    /// there is none.
    fn find_fit(&self, size: u64) -> (r: usize)
        ensures
            r == first_fit(self@.slots, size as nat, 0),
            r <= self.slots@.len(),
    {
        let mut index: usize = 0;
        while index < self.slots.len() && !(self.slots[index].storage.is_some() && size
            <= self.slots[index].size as u64)
            invariant
                index <= self.slots@.len(),
                first_fit(self@.slots, size as nat, 0) == first_fit(
                    self@.slots,
                    size as nat,
                    index as int,
                ),
            decreases self.slots@.len() - index,
        {
            assert(self@.slots[index as int] == self.slots@[index as int]@);
            index += 1;
        }
        proof {
            if index < self.slots.len() {
                assert(self@.slots[index as int] == self.slots@[index as int]@);
            }
        }
        index
    }

    /// Lends a buffer: the first free one that is large enough. Where there is none, the
    /// buffer without storage.
    pub fn buffer_get_callee_in(&mut self, size: u64, out: &mut Vec<Action>) -> (r: Buffer)
        requires
            old(self).wf(),
            old(self)@.can_lend(size as nat),
        ensures
            final(self).wf(),
            ({
                let index = first_fit(old(self)@.slots, size as nat, 0);
                if index < old(self)@.slots.len() {
                    &&& r@ == old(self)@.loan(index, size as nat)
                    &&& final(self)@ == old(self)@.lent(index)
                    &&& final(out)@ == old(out)@
                } else {
                    &&& r@ == BufferView::empty()
                    &&& final(self)@ == old(self)@.refused()
                    &&& final(out)@ == (if old(self)@.no_buffs_throttle.open() {
                        old(out)@.push(
                            Action::Event(BufferManagerEvent::NoBuffsAvailable { size }),
                        )
                    } else {
                        old(out)@
                    })
                }
            }),
            r@ == old(self)@.given(size as nat),
            final(self)@ == old(self)@.after_request(size as nat),
            final(out)@ == old(out)@ + old(self)@.request_outputs(size),
    {
        let ghost before = self@;
        let ghost start = out@;
        let index: usize = self.find_fit(size);
        proof {
            lemma_first_fit(before.slots, size as nat, 0);
            if index < self.slots.len() {
                assert(before.slots[index as int] == self.slots@[index as int]@);
            }
        }
        if index < self.slots.len() {
            let ghost held = self.slots@;
            let slot_size: usize = self.slots[index].size;
            let mut loaned = Slot { storage: None, size: slot_size };
            std::mem::swap(&mut self.slots[index], &mut loaned);
            proof {
                assert(self.slots@ =~= held.update(index as int, self.slots@[index as int]));
                assert(self@.slots =~= before.lent(index as int).slots);
                lemma_loans_update(
                    before.slots,
                    index as int,
                    SlotView { storage: None, ..before.slots[index as int] },
                );
            }
            self.curr_buffs = self.curr_buffs + 1;
            if self.curr_buffs > self.high_water {
                self.high_water = self.curr_buffs;
            }
            assert(self@ =~= before.lent(index as int));
            let context: u32 = self.mgr_id as u32 * 0x1_0000 + index as u32;
            let storage: Vec<u8> = match loaned.storage {
                Some(storage) => storage,
                None => Vec::new(),
            };
            assert(storage@ == before.slots[index as int].storage->0);
            let mut buffer = Buffer::from_storage(storage, context);
            buffer.set_size(size as usize);
            assert(buffer@ =~= before.loan(index as int, size as nat));
            assert(out@ =~= start + before.request_outputs(size));
            buffer
        } else {
            self.no_buffs = counter::bump(self.no_buffs);
            if self.no_buffs_throttle.should_emit() {
                out.push(Action::Event(BufferManagerEvent::NoBuffsAvailable { size }));
            }
            assert(out@ =~= start + before.request_outputs(size));
            Buffer::empty()
        }
    }

    /// Takes a buffer back.
    pub fn buffer_send_in(&mut self, buffer: Buffer, out: &mut Vec<Action>)
        requires
            old(self).wf(),
            old(self)@.takes_back(buffer@),
        ensures
            final(self).wf(),
            final(self)@ == old(self)@.taken_back(buffer@),
            final(out)@ == (if buffer@.storage.len() == 0 && buffer@.size == 0 && old(
                self,
            )@.null_empty_throttle.open() {
                old(out)@.push(Action::Event(BufferManagerEvent::NullEmptyBuffer))
            } else {
                old(out)@
            }),
            final(out)@ == old(out)@ + old(self)@.return_outputs(buffer@),
    {
        let ghost before = self@;
        let ghost start = out@;
        let ghost back = buffer@;
        if buffer.capacity() == 0 && buffer.size() == 0 {
            self.empty_buffs = counter::bump(self.empty_buffs);
            if self.null_empty_throttle.should_emit() {
                out.push(Action::Event(BufferManagerEvent::NullEmptyBuffer));
            }
        } else {
            let index: usize = (buffer.context() % 0x1_0000) as usize;
            let size: usize = self.slots[index].size;
            assert(before.slots[index as int] == self.slots@[index as int]@);
            let storage: Vec<u8> = buffer.into_storage();
            self.slots.set(index, Slot { storage: Some(storage), size });
            proof {
                lemma_loans_update(
                    before.slots,
                    index as int,
                    SlotView { storage: Some(buffer@.storage), ..before.slots[index as int] },
                );
                assert(self@.slots =~= before.taken_back(buffer@).slots);
            }
            self.curr_buffs = self.curr_buffs - 1;
            assert(self@ =~= before.taken_back(buffer@));
        }
        assert(out@ =~= start + before.return_outputs(back));
    }

    /// Writes the numbers that have changed to telemetry.
    pub fn sched_in(&mut self, out: &mut Vec<Action>)
        requires
            old(self).wf(),
        ensures
            final(self).wf(),
            final(self)@ == old(self)@.written(),
            final(out)@ == old(out)@ + old(self)@.changed(5),
    {
        let ghost before = self@;
        let ghost start = out@;
        let values: [(u32, u32); 5] = [
            (CHANID_HI_BUFFS, self.high_water),
            (CHANID_CURR_BUFFS, self.curr_buffs),
            (CHANID_TOTAL_BUFFS, self.slots.len() as u32),
            (CHANID_NO_BUFFS, self.no_buffs),
            (CHANID_EMPTY_BUFFS, self.empty_buffs),
        ];
        let mut i: usize = 0;
        assert(out@ =~= start + before.changed(0));
        while i < 5
            invariant
                i <= 5,
                before.last_tlm.len() == 5,
                values@.len() == 5,
                forall|k: int|
                    0 <= k < 5 ==> (Action::Tlm {
                        id: (#[trigger] values@[k]).0,
                        value: values@[k].1,
                    }) == before.tlm()[k],
                self@ == (PoolState {
                    last_tlm: Seq::new(
                        5,
                        |k: int|
                            if k < i {
                                Some(before.tlm()[k]->value)
                            } else {
                                before.last_tlm[k]
                            },
                    ),
                    ..before
                }),
                out@ == start + before.changed(i as nat),
            decreases 5 - i,
        {
            let (id, value) = values[i];
            assert(Action::Tlm { id, value } == before.tlm()[i as int]);
            let unchanged: bool = match self.last_tlm[i] {
                Some(v) => v == value,
                None => false,
            };
            if !unchanged {
                self.last_tlm.set(i, Some(value));
                out.push(Action::Tlm { id, value });
            }
            i += 1;
            assert(self@.last_tlm =~= Seq::new(
                5,
                |k: int|
                    if k < i {
                        Some(before.tlm()[k]->value)
                    } else {
                        before.last_tlm[k]
                    },
            ));
            assert(out@ =~= start + before.changed(i as nat));
        }
        assert(self@.last_tlm =~= before.written().last_tlm);
        assert(self@ =~= before.written());
    }

    /// Whether a buffer of a given size can be asked for.
    pub fn can_lend(&self, size: u64) -> (r: bool)
        ensures
            r == self@.can_lend(size as nat),
    {
        self.setup && (self.curr_buffs < u32::MAX || self.find_fit(size) >= self.slots.len())
    }

    /// Whether a buffer can come back.
    pub fn takes_back(&self, buffer: &Buffer) -> (r: bool)
        ensures
            r == self@.takes_back(buffer@),
    {
        if !self.setup {
            return false;
        }
        if buffer.capacity() == 0 && buffer.size() == 0 {
            return true;
        }
        let index: usize = (buffer.context() % 0x1_0000) as usize;
        if index >= self.slots.len() || buffer.context() / 0x1_0000 != self.mgr_id as u32 {
            return false;
        }
        assert(self@.slots[index as int] == self.slots@[index as int]@);
        self.slots[index].storage.is_none() && buffer.capacity() == self.slots[index].size
    }

    /// Whether there has been a pool.
    pub fn was_setup(&self) -> (r: bool)
        ensures
            r == self@.was_setup,
    {
        self.was_setup
    }

    /// The number of buffers on loan.
    pub fn curr_buffs(&self) -> (r: u32)
        ensures
            r == self@.curr_buffs,
    {
        self.curr_buffs
    }

    /// The largest number of buffers on loan.
    pub fn high_water(&self) -> (r: u32)
        ensures
            r == self@.high_water,
    {
        self.high_water
    }

    /// How many empty buffers came back.
    pub fn empty_buffs(&self) -> (r: u32)
        ensures
            r == self@.empty_buffs,
    {
        self.empty_buffs
    }
}

/// A buffer that comes back as it was lent, whatever was written in it, leaves the pool as
/// it was but for the bytes and the high-water mark, and is lent again for the same
/// request.
pub proof fn law_loan_round_trip(s: PoolState, size: nat, bytes_back: Seq<u8>, window: nat)
    requires
        s.valid(),
        s.can_lend(size),
        first_fit(s.slots, size, 0) < s.slots.len(),
        bytes_back.len() == s.slots[first_fit(s.slots, size, 0)].size,
        window <= bytes_back.len(),
        0 < bytes_back.len(),
    ensures
        ({
            let index = first_fit(s.slots, size, 0);
            let back = BufferView { storage: bytes_back, size: window, ..s.loan(index, size) };
            let after = s.lent(index).taken_back(back);
            &&& s.lent(index).takes_back(back)
            &&& after.curr_buffs == s.curr_buffs
            &&& after.slots == s.slots.update(
                index,
                SlotView { storage: Some(bytes_back), ..s.slots[index] },
            )
            &&& first_fit(after.slots, size, 0) == index
            &&& after.loan(index, size).bytes() == bytes_back.take(size as int)
        }),
{
    let index = first_fit(s.slots, size, 0);
    lemma_first_fit(s.slots, size, 0);
    let back = BufferView { storage: bytes_back, size: window, ..s.loan(index, size) };
    let after = s.lent(index).taken_back(back);
    assert(back.context % 0x1_0000 == index);
    assert(back.context / 0x1_0000 == s.mgr_id);
    assert(after.slots =~= s.slots.update(
        index,
        SlotView { storage: Some(bytes_back), ..s.slots[index] },
    ));
    lemma_first_fit(after.slots, size, 0);
    let again = first_fit(after.slots, size, 0);
    if again < index {
        assert(after.slots[again] == s.slots[again]);
    }
    assert(after.slots[index].storage is Some);
    assert(after.loan(index, size).bytes() =~= bytes_back.take(size as int));
}

/// A buffer on loan is not lent a second time: what a request gets is another one, and
/// known by another number.
pub proof fn law_no_double_loan(s: PoolState, on_loan: int, size: nat)
    requires
        s.valid(),
        0 <= on_loan < s.slots.len(),
        s.slots[on_loan].storage is None,
        first_fit(s.slots, size, 0) < s.slots.len(),
    ensures
        first_fit(s.slots, size, 0) != on_loan,
        s.loan(first_fit(s.slots, size, 0), size).context != context_of(s.mgr_id, on_loan),
{
    lemma_first_fit(s.slots, size, 0);
}

/// What is lent is large enough, and where nothing is lent no free buffer is.
pub proof fn law_first_fit(s: PoolState, size: nat)
    requires
        s.valid(),
    ensures
        ({
            let index = first_fit(s.slots, size, 0);
            if index < s.slots.len() {
                &&& size <= s.loan(index, size).storage.len()
                &&& s.loan(index, size).wf()
                &&& forall|i: int|
                    0 <= i < index ==> (#[trigger] s.slots[i]).storage is None || s.slots[i].size
                        < size
            } else {
                forall|i: int|
                    0 <= i < s.slots.len() ==> (#[trigger] s.slots[i]).storage is None
                        || s.slots[i].size < size
            }
        }),
{
    lemma_first_fit(s.slots, size, 0);
}

/// Nothing is written to telemetry that was not changed since it was written.
pub proof fn law_telemetry_on_change(s: PoolState)
    requires
        s.valid(),
    ensures
        s.written().written() == s.written(),
        s.written().changed(5) == Seq::<Action>::empty(),
{
    assert(s.written().written().last_tlm =~= s.written().last_tlm);
    let w = s.written();
    assert(w.tlm() == s.tlm());
    reveal_with_fuel(PoolState::changed, 6);
}

/// The number of buffers on loan counts what is on loan from the places of a pool that was
/// made once: it grows by one with each loan and falls by one with each return, and never
/// exceeds the number of places.
pub proof fn law_loans_are_counted(s: PoolState, size: nat, back: BufferView)
    requires
        s.valid(),
        s.curr_buffs == loans(s.slots),
    ensures
        loans(s.slots) <= s.slots.len(),
        first_fit(s.slots, size, 0) < s.slots.len() ==> {
            let lent = s.lent(first_fit(s.slots, size, 0));
            &&& lent.curr_buffs == s.curr_buffs + 1
            &&& lent.curr_buffs == loans(lent.slots)
            &&& lent.high_water >= lent.curr_buffs
        },
        s.takes_back(back) && back.storage.len() > 0 ==> {
            let after = s.taken_back(back);
            &&& after.curr_buffs == s.curr_buffs - 1
            &&& after.curr_buffs == loans(after.slots)
        },
{
    lemma_loans_bound(s.slots);
    let index = first_fit(s.slots, size, 0);
    lemma_first_fit(s.slots, size, 0);
    if index < s.slots.len() {
        lemma_loans_update(s.slots, index, SlotView { storage: None, ..s.slots[index] });
    }
    if s.takes_back(back) && back.storage.len() > 0 {
        let place = (back.context % 0x1_0000) as int;
        lemma_loans_update(
            s.slots,
            place,
            SlotView { storage: Some(back.storage), ..s.slots[place] },
        );
    }
}

/// A request gets the first free buffer that is large enough: its storage, a window of the
/// size that was asked for from its start, and a number made of that of the pool and the place
/// of the buffer. From then on it is on loan, which is counted. All other buffers stay as they
/// are.
pub proof fn law_request_lends_one_buffer(s: PoolState, size: nat, index: int)
    requires
        s.valid(),
        s.can_lend(size),
        0 <= index < s.slots.len(),
        s.slots[index].storage is Some,
        size <= s.slots[index].size,
        forall|i: int|
            0 <= i < index ==> (#[trigger] s.slots[i]).storage is None || s.slots[i].size < size,
    ensures
        first_fit(s.slots, size, 0) == index,
        ({
            let lent = s.lent(index);
            let loan = s.loan(index, size);
            &&& loan.storage == s.slots[index].storage->0
            &&& loan.offset == 0
            &&& loan.size == size
            &&& loan.context == s.mgr_id * 65536 + index
            &&& lent.slots.len() == s.slots.len()
            &&& forall|i: int|
                0 <= i < s.slots.len() && i != index ==> #[trigger] lent.slots[i] == s.slots[i]
            &&& lent.slots[index].storage is None
            &&& lent.slots[index].size == s.slots[index].size
            &&& lent.curr_buffs == s.curr_buffs + 1
            &&& lent.high_water == if s.high_water <= s.curr_buffs {
                s.curr_buffs + 1
            } else {
                s.high_water as int
            }
            &&& lent == (PoolState {
                slots: lent.slots,
                curr_buffs: lent.curr_buffs,
                high_water: lent.high_water,
                ..s
            })
        }),
{
    lemma_first_fit(s.slots, size, 0);
    let found = first_fit(s.slots, size, 0);
    if found < index {
        assert(s.slots[found].storage is None || s.slots[found].size < size);
    }
}

/// A request that no free buffer is large enough for is counted, and nothing else changes.
pub proof fn law_refused_request_is_counted(s: PoolState, size: nat)
    requires
        s.valid(),
        forall|i: int|
            0 <= i < s.slots.len() ==> (#[trigger] s.slots[i]).storage is None || s.slots[i].size
                < size,
    ensures
        first_fit(s.slots, size, 0) == s.slots.len(),
        s.refused().no_buffs == (s.no_buffs + 1) % 0x1_0000_0000,
        s.refused().no_buffs_throttle.count == s.no_buffs_throttle.count + if s.no_buffs_throttle.count
            < s.no_buffs_throttle.limit {
            1int
        } else {
            0int
        },
        s.refused() == (PoolState {
            no_buffs: s.refused().no_buffs,
            no_buffs_throttle: s.refused().no_buffs_throttle,
            ..s
        }),
{
    lemma_first_fit(s.slots, size, 0);
    let found = first_fit(s.slots, size, 0);
    if found < s.slots.len() {
        assert(s.slots[found].storage is None || s.slots[found].size < size);
    }
}

/// A buffer that comes back goes to the place that its number gives, whose buffer is on loan,
/// and is free again with the storage that came back; the number of loans goes down by one.
/// All other buffers stay as they are. An empty buffer is only counted.
pub proof fn law_return_frees_one_buffer(s: PoolState, buffer: BufferView)
    requires
        s.valid(),
        s.takes_back(buffer),
    ensures
        ({
            let after = s.taken_back(buffer);
            let empty = buffer.storage.len() == 0 && buffer.size == 0;
            let index = buffer.context as int % 65536;
            &&& empty ==> {
                &&& after.empty_buffs == (s.empty_buffs + 1) % 0x1_0000_0000
                &&& after == (PoolState {
                    empty_buffs: after.empty_buffs,
                    null_empty_throttle: after.null_empty_throttle,
                    ..s
                })
                &&& after.null_empty_throttle.count == s.null_empty_throttle.count + if s.null_empty_throttle.count
                    < s.null_empty_throttle.limit {
                    1int
                } else {
                    0int
                }
            }
            &&& !empty ==> {
                &&& buffer.context as int / 65536 == s.mgr_id
                &&& index < s.slots.len()
                &&& s.slots[index].storage is None
                &&& buffer.storage.len() == s.slots[index].size
                &&& after.slots.len() == s.slots.len()
                &&& forall|i: int|
                    0 <= i < s.slots.len() && i != index ==> #[trigger] after.slots[i]
                        == s.slots[i]
                &&& after.slots[index].storage == Some(buffer.storage)
                &&& after.slots[index].size == s.slots[index].size
                &&& after == (PoolState {
                    slots: after.slots,
                    curr_buffs: after.curr_buffs,
                    ..s
                })
                &&& after.curr_buffs == s.curr_buffs - 1
            }
        }),
{
    if !(buffer.storage.len() == 0 && buffer.size == 0) {
        let index = buffer.context as int % 65536;
        lemma_loans_update(
            s.slots,
            index,
            SlotView { storage: Some(buffer.storage), ..s.slots[index] },
        );
    }
}

/// A tick writes those of five numbers that are not the ones written last, and remembers all
/// of them. They are, in this order: the most buffers that were on loan, those that are, all
/// buffers, the requests that failed, and the empty buffers that came back.
pub proof fn law_tick_writes_what_changed(s: PoolState)
    requires
        s.valid(),
    ensures
        ({
            let values = seq![
                s.high_water,
                s.curr_buffs,
                s.slots.len() as u32,
                s.no_buffs,
                s.empty_buffs,
            ];
            let part = |i: int|
                if s.last_tlm[i] == Some(values[i]) {
                    Seq::<Action>::empty()
                } else {
                    seq![Action::Tlm { id: channel(i), value: values[i] }]
                };
            &&& s.changed(5) == part(0) + part(1) + part(2) + part(3) + part(4)
            &&& s.written() == (PoolState { last_tlm: s.written().last_tlm, ..s })
            &&& s.written().last_tlm.len() == 5
            &&& forall|i: int| 0 <= i < 5 ==> #[trigger] s.written().last_tlm[i] == Some(values[i])
        }),
{
    reveal_with_fuel(PoolState::changed, 6);
    let values = seq![s.high_water, s.curr_buffs, s.slots.len() as u32, s.no_buffs, s.empty_buffs];
    let part = |i: int|
        if s.last_tlm[i] == Some(values[i]) {
            Seq::<Action>::empty()
        } else {
            seq![Action::Tlm { id: channel(i), value: values[i] }]
        };
    assert(s.changed(1) =~= part(0));
    assert(s.changed(2) =~= part(0) + part(1));
    assert(s.changed(3) =~= part(0) + part(1) + part(2));
    assert(s.changed(4) =~= part(0) + part(1) + part(2) + part(3));
    assert(s.changed(5) =~= part(0) + part(1) + part(2) + part(3) + part(4));
}

/// The telemetry channel of the number that is written in a given place.
pub open spec fn channel(i: int) -> u32 {
    if i == 0 {
        2
    } else if i == 1 {
        1
    } else if i == 2 {
        0
    } else if i == 3 {
        3
    } else {
        4
    }
}

/// The places of a pool are those of its bins, one bin after the other, each as large as its
/// bin says and holding as many zero bytes.
pub proof fn law_bins_make_the_pool(bins: Seq<BufferBin>, last: BufferBin, i: int)
    ensures
        fresh_slots(Seq::empty()).len() == 0,
        fresh_slots(bins.push(last)).len() == fresh_slots(bins).len() + last.num_buffers,
        fresh_slots(bins.push(last)).take(fresh_slots(bins).len() as int) == fresh_slots(bins),
        fresh_slots(bins).len() <= i < fresh_slots(bins.push(last)).len() ==> {
            let slot = fresh_slots(bins.push(last))[i];
            &&& slot.size == last.buffer_size
            &&& slot.storage is Some
            &&& slot.storage->0.len() == last.buffer_size
            &&& forall|k: int| 0 <= k < last.buffer_size ==> #[trigger] slot.storage->0[k] == 0
        },
        total(Seq::empty()) == 0,
        total(bins.push(last)) == total(bins) + last.num_buffers,
{
    assert(bins.push(last).drop_last() =~= bins);
    assert(fresh_slots(bins.push(last)).take(fresh_slots(bins).len() as int) =~= fresh_slots(bins));
}

/// At first there is no pool and never was, nothing is on loan, every count is zero and nothing
/// was written.
pub proof fn law_starts_without_a_pool()
    ensures
        ({
            let s = PoolState::initial();
            &&& !s.setup && !s.was_setup
            &&& s.slots.len() == 0
            &&& s.high_water == 0 && s.curr_buffs == 0 && s.no_buffs == 0 && s.empty_buffs == 0
            &&& s.last_tlm.len() == 5
            &&& forall|i: int| 0 <= i < 5 ==> (#[trigger] s.last_tlm[i]) is None
            &&& s.no_buffs_throttle == (EventThrottle { limit: 10, count: 0 })
            &&& s.null_empty_throttle == (EventThrottle { limit: 10, count: 0 })
        }),
{
}

/// A request that failed is event 0, reported with its size in eight bytes, and an empty buffer
/// that came back event 1, without arguments.
pub proof fn law_events(e: BufferManagerEvent)
    ensures
        e is NoBuffsAvailable <==> e.spec_id() == 0,
        e is NullEmptyBuffer <==> e.spec_id() == 1,
        e is NullEmptyBuffer ==> e.wire().len() == 0,
        e matches BufferManagerEvent::NoBuffsAvailable { size } ==> {
            let w = e.wire();
            &&& w.len() == 8
            &&& bytes::sum_of_four(w, 0) * 0x1_0000_0000 + bytes::sum_of_four(w, 4) == size
        },
{
    if e is NoBuffsAvailable {
        bytes::law_most_significant_of_eight_first(e->size);
    }
}

/// A buffer can be asked for where there is a pool, unless one would be lent that could not be
/// counted any more. A buffer can come back where there is a pool: an empty one always, and
/// another one to the place of this pool that its number gives, if that is on loan and as large.
pub proof fn law_what_can_be_asked_for(s: PoolState, size: nat, buffer: BufferView)
    requires
        s.valid(),
    ensures
        s.can_lend(size) <==> s.setup && (s.curr_buffs < u32::MAX || forall|i: int|
            0 <= i < s.slots.len() ==> (#[trigger] s.slots[i]).storage is None || s.slots[i].size
                < size),
        s.takes_back(buffer) <==> s.setup && (buffer.storage.len() == 0 && buffer.size == 0 || {
            let index = buffer.context as int % 65536;
            &&& buffer.context as int / 65536 == s.mgr_id
            &&& index < s.slots.len()
            &&& s.slots[index].storage is None
            &&& buffer.storage.len() == s.slots[index].size
        }),
{
    lemma_first_fit(s.slots, size, 0);
    let found = first_fit(s.slots, size, 0);
    if found < s.slots.len() {
        assert(s.slots[found].storage is Some && size <= s.slots[found].size);
    }
}

/// A request that a free buffer is large enough for gets the first such buffer, and nothing is
/// reported. Any other gets a buffer without storage, and is reported with its size while the
/// limit allows.
pub proof fn law_what_a_request_gets(s: PoolState, size: u64, index: int)
    requires
        s.valid(),
        s.can_lend(size as nat),
    ensures
        ({
            let fits = |i: int| s.slots[i].storage is Some && size <= s.slots[i].size;
            &&& 0 <= index < s.slots.len() && fits(index) && (forall|i: int|
                0 <= i < index ==> !#[trigger] fits(i)) ==> {
                &&& s.given(size as nat).storage == s.slots[index].storage->0
                &&& s.given(size as nat).offset == 0
                &&& s.given(size as nat).size == size
                &&& s.given(size as nat).context == s.mgr_id * 65536 + index
                &&& s.after_request(size as nat) == s.lent(index)
                &&& s.request_outputs(size).len() == 0
            }
            &&& (forall|i: int| 0 <= i < s.slots.len() ==> !#[trigger] fits(i)) ==> {
                &&& s.given(size as nat).storage.len() == 0
                &&& s.given(size as nat).size == 0
                &&& s.after_request(size as nat) == s.refused()
                &&& s.request_outputs(size) == if s.no_buffs_throttle.count
                    < s.no_buffs_throttle.limit {
                    seq![Action::Event(BufferManagerEvent::NoBuffsAvailable { size })]
                } else {
                    Seq::empty()
                }
            }
        }),
{
    lemma_first_fit(s.slots, size as nat, 0);
    let fits = |i: int| s.slots[i].storage is Some && size <= s.slots[i].size;
    let found = first_fit(s.slots, size as nat, 0);
    if found < s.slots.len() {
        assert(fits(found));
    }
    if 0 <= index < s.slots.len() && fits(index) && found < index {
        assert(fits(found));
    }
}

/// Only an empty buffer that comes back is reported, while the limit allows.
pub proof fn law_what_is_reported_of_a_return(s: PoolState, buffer: BufferView)
    ensures
        s.return_outputs(buffer) == if buffer.storage.len() == 0 && buffer.size == 0
            && s.null_empty_throttle.count < s.null_empty_throttle.limit {
            seq![Action::Event(BufferManagerEvent::NullEmptyBuffer)]
        } else {
            Seq::empty()
        },
{
}

} // verus!
