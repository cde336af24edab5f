//! Queues of bounded depth.
use std::collections::VecDeque;
use vstd::prelude::*;

use super::outputs;

verus! {

/// Which entry of a queue leaves first.
#[derive(Debug, Clone, Copy, PartialEq, Eq, Structural)]
pub enum QueueMode {
    /// The oldest entry leaves first.
    Fifo,
    /// The newest entry leaves first.
    Lifo,
}

/// Which entry gives way when a full queue gets another one.
#[derive(Debug, Clone, Copy, PartialEq, Eq, Structural)]
pub enum QueueOverflowMode {
    /// The new entry is refused.
    DropNewest,
    /// The oldest entry is discarded.
    DropOldest,
}

/// What became of an entry that was put in a queue.
#[derive(Debug)]
pub enum Enqueued<T> {
    /// There was room for it.
    Accepted,
    /// There was no room, and it comes back.
    Refused(T),
    /// There was no room, and the oldest entry comes out for it.
    Discarded(T),
}

impl<T: View> View for Enqueued<T> {
    type V = Enqueued<T::V>;

    open spec fn view(&self) -> Enqueued<T::V> {
        match self {
            Enqueued::Accepted => Enqueued::Accepted,
            Enqueued::Refused(item) => Enqueued::Refused(item@),
            Enqueued::Discarded(item) => Enqueued::Discarded(item@),
        }
    }
}

/// A queue as contracts see it.
#[verifier::ext_equal]
pub struct QueueView<T> {
    /// How many entries fit.
    pub depth: nat,
    /// Which entry leaves first.
    pub mode: QueueMode,
    /// Which entry gives way.
    pub overflow_mode: QueueOverflowMode,
    /// The entries, oldest first.
    pub items: Seq<T>,
    /// The largest number of entries since the mark was last cleared.
    pub high_water: nat,
}

/// The larger of two numbers.
pub open spec fn larger(a: nat, b: nat) -> nat {
    if a < b {
        b
    } else {
        a
    }
}

impl<T> QueueView<T> {
    /// There is room for something, and there is never more than fits.
    pub open spec fn wf(self) -> bool {
        &&& 0 < self.depth
        &&& self.items.len() <= self.depth
        &&& self.high_water <= self.depth
    }

    /// The empty queue of a given depth.
    pub open spec fn empty(depth: nat, mode: QueueMode, overflow_mode: QueueOverflowMode) -> Self {
        QueueView { depth, mode, overflow_mode, items: Seq::empty(), high_water: 0 }
    }

    /// Whether there is no room for another entry.
    pub open spec fn full(self) -> bool {
        self.items.len() >= self.depth
    }

    /// Whether another entry would be refused.
    pub open spec fn refuses(self) -> bool {
        self.full() && self.overflow_mode == QueueOverflowMode::DropNewest
    }

    /// Whether another entry would displace the oldest.
    pub open spec fn discards(self) -> bool {
        self.full() && self.overflow_mode == QueueOverflowMode::DropOldest
    }

    /// The queue after another entry was put in.
    pub open spec fn enqueued(self, item: T) -> Self {
        if self.refuses() {
            self
        } else {
            let items = if self.discards() {
                self.items.skip(1).push(item)
            } else {
                self.items.push(item)
            };
            QueueView { items, high_water: larger(self.high_water, items.len()), ..self }
        }
    }

    /// What becomes of another entry.
    pub open spec fn enqueue_result(self, item: T) -> Enqueued<T> {
        if self.refuses() {
            Enqueued::Refused(item)
        } else if self.discards() {
            Enqueued::Discarded(self.items[0])
        } else {
            Enqueued::Accepted
        }
    }

    /// The entry that leaves next.
    pub open spec fn next(self) -> T {
        match self.mode {
            QueueMode::Fifo => self.items[0],
            QueueMode::Lifo => self.items.last(),
        }
    }

    /// The queue after the next entry has left.
    pub open spec fn dequeued(self) -> Self {
        QueueView {
            items: match self.mode {
                QueueMode::Fifo => self.items.skip(1),
                QueueMode::Lifo => self.items.drop_last(),
            },
            ..self
        }
    }

    /// All entries, in the order in which they leave.
    pub open spec fn departures(self) -> Seq<T> {
        match self.mode {
            QueueMode::Fifo => self.items,
            QueueMode::Lifo => self.items.reverse(),
        }
    }

    /// The queue with its high-water mark cleared.
    pub open spec fn unmarked(self) -> Self {
        QueueView { high_water: 0, ..self }
    }
}

/// A queue of bounded depth that remembers how full it has been.
#[derive(Debug)]
pub struct BoundedQueue<T> {
    depth: u64,
    mode: QueueMode,
    overflow_mode: QueueOverflowMode,
    items: VecDeque<T>,
    high_water: usize,
}

impl<T: View> View for BoundedQueue<T> {
    type V = QueueView<T::V>;

    closed spec fn view(&self) -> QueueView<T::V> {
        QueueView {
            depth: self.depth as nat,
            mode: self.mode,
            overflow_mode: self.overflow_mode,
            items: outputs::views(self.items@),
            high_water: self.high_water as nat,
        }
    }
}

impl<T: View> BoundedQueue<T> {
    /// An empty queue.
    pub fn new(depth: u64, mode: QueueMode, overflow_mode: QueueOverflowMode) -> (r: Self)
        ensures
            r@ == QueueView::<T::V>::empty(depth as nat, mode, overflow_mode),
    {
        let r = BoundedQueue { depth, mode, overflow_mode, items: VecDeque::new(), high_water: 0 };
        assert(r@.items =~= Seq::<T::V>::empty());
        r
    }

    /// Puts an entry in.
    pub fn enqueue(&mut self, item: T) -> (r: Enqueued<T>)
        requires
            old(self)@.wf(),
        ensures
            final(self)@ == old(self)@.enqueued(item@),
            r@ == old(self)@.enqueue_result(item@),
    {
        let ghost before = self@;
        let mut result: Enqueued<T> = Enqueued::Accepted;
        if self.items.len() as u64 >= self.depth {
            match self.overflow_mode {
                QueueOverflowMode::DropNewest => {
                    return Enqueued::Refused(item);
                },
                QueueOverflowMode::DropOldest => {
                    match self.items.pop_front() {
                        Some(oldest) => {
                            result = Enqueued::Discarded(oldest);
                        },
                        None => {},
                    }
                },
            }
        }
        self.items.push_back(item);
        let n: usize = self.items.len();
        if self.high_water < n {
            self.high_water = n;
        }
        assert(self@.items =~= before.enqueued(item@).items);
        result
    }

    /// Takes the next entry out.
    pub fn dequeue(&mut self) -> (r: Option<T>)
        ensures
            match r {
                Some(item) => {
                    &&& old(self)@.items.len() > 0
                    &&& item@ == old(self)@.next()
                    &&& final(self)@ == old(self)@.dequeued()
                },
                None => {
                    &&& old(self)@.items.len() == 0
                    &&& final(self)@ == old(self)@
                },
            },
    {
        let ghost before = self@;
        let r = match self.mode {
            QueueMode::Fifo => self.items.pop_front(),
            QueueMode::Lifo => self.items.pop_back(),
        };
        proof {
            if r is Some {
                assert(self@.items =~= before.dequeued().items);
            }
        }
        r
    }

    /// The next entry.
    pub fn peek(&self) -> (r: Option<&T>)
        ensures
            match r {
                Some(item) => self@.items.len() > 0 && item@ == self@.next(),
                None => self@.items.len() == 0,
            },
    {
        let n: usize = self.items.len();
        if n == 0 {
            None
        } else {
            match self.mode {
                QueueMode::Fifo => Some(&self.items[0]),
                QueueMode::Lifo => Some(&self.items[n - 1]),
            }
        }
    }

    /// How many entries there are.
    pub fn size(&self) -> (r: usize)
        ensures
            r == self@.items.len(),
    {
        self.items.len()
    }

    /// The largest number of entries since the mark was last cleared.
    pub fn high_water_mark(&self) -> (r: usize)
        ensures
            r == self@.high_water,
    {
        self.high_water
    }

    /// Clears the high-water mark.
    pub fn clear_high_water_mark(&mut self)
        ensures
            final(self)@ == old(self)@.unmarked(),
    {
        self.high_water = 0;
    }
}

/// Putting in and taking out never lets a queue hold more than fits, and the mark never
/// exceeds that either.
pub proof fn law_queue_stays_within_depth<T>(q: QueueView<T>, item: T)
    requires
        q.wf(),
    ensures
        q.enqueued(item).wf(),
        q.items.len() > 0 ==> q.dequeued().wf(),
        q.unmarked().wf(),
        q.enqueued(item).items.len() <= q.enqueued(item).high_water || q.refuses(),
{
}

/// An entry is lost from a queue only when the queue is full: as many entries are in it
/// afterwards as before and one more, or one comes out.
pub proof fn law_nothing_is_lost<T>(q: QueueView<T>, item: T)
    requires
        q.wf(),
    ensures
        q.enqueue_result(item) is Accepted <==> q.items.len() < q.depth,
        q.enqueue_result(item) is Accepted ==> q.enqueued(item).items == q.items.push(item),
        !(q.enqueue_result(item) is Accepted) ==> q.enqueued(item).items.len() == q.items.len(),
        match q.enqueue_result(item) {
            Enqueued::Accepted => true,
            Enqueued::Refused(back) => back == item && q.enqueued(item) == q,
            Enqueued::Discarded(oldest) => seq![oldest] + q.enqueued(item).items == q.items.push(
                item,
            ),
        },
{
    if q.discards() {
        assert(seq![q.items[0]] + q.enqueued(item).items =~= q.items.push(item));
    }
}

/// Entries leave a queue in the order in which its departures list them.
pub proof fn law_departures<T>(q: QueueView<T>)
    requires
        q.items.len() > 0,
    ensures
        q.departures().len() == q.items.len(),
        q.next() == q.departures()[0],
        q.dequeued().departures() == q.departures().skip(1),
{
    assert(q.dequeued().departures() =~= q.departures().skip(1));
}

/// An entry put in a first-in first-out queue leaves after all that were there; put in a
/// last-in first-out queue, before them.
pub proof fn law_place_in_line<T>(q: QueueView<T>, item: T)
    requires
        q.wf(),
        !q.full(),
    ensures
        q.mode == QueueMode::Fifo ==> q.enqueued(item).departures() == q.departures().push(item),
        q.mode == QueueMode::Lifo ==> q.enqueued(item).departures() == seq![item] + q.departures(),
{
    if q.mode == QueueMode::Lifo {
        assert(q.enqueued(item).departures() =~= seq![item] + q.departures());
    }
}

/// What is put in a queue is in it afterwards unless it was refused; everything else in it
/// stays in its order, but for the oldest entry where that gave way. What the queue is set
/// to stays as it is, and the mark rises only to the number of entries.
pub proof fn law_enqueued<T>(q: QueueView<T>, item: T)
    requires
        q.wf(),
    ensures
        ({
            let r = q.enqueued(item);
            &&& r.depth == q.depth
            &&& r.mode == q.mode
            &&& r.overflow_mode == q.overflow_mode
            &&& q.items.len() < q.depth ==> {
                &&& r.items.len() == q.items.len() + 1
                &&& r.items.take(q.items.len() as int) == q.items
                &&& r.items[q.items.len() as int] == item
                &&& r.high_water == if q.items.len() + 1 > q.high_water {
                    q.items.len() + 1
                } else {
                    q.high_water
                }
            }
            &&& q.items.len() == q.depth && q.overflow_mode == QueueOverflowMode::DropNewest ==> {
                &&& r == q
                &&& q.enqueue_result(item) == Enqueued::Refused(item)
            }
            &&& q.items.len() == q.depth && q.overflow_mode == QueueOverflowMode::DropOldest ==> {
                &&& r.items.len() == q.items.len()
                &&& forall|i: int| 0 <= i < q.items.len() - 1 ==> #[trigger] r.items[i] == q.items[i
                    + 1]
                &&& r.items[q.items.len() - 1] == item
                &&& r.high_water == q.depth
                &&& q.enqueue_result(item) == Enqueued::Discarded(q.items[0])
            }
        }),
{
    assert(q.items.push(item).take(q.items.len() as int) =~= q.items);
}

/// A first-in first-out queue gives its oldest entry, a last-in first-out queue its newest.
/// All the others stay in their order, and so does what the queue is set to.
pub proof fn law_dequeued<T>(q: QueueView<T>)
    requires
        q.items.len() > 0,
    ensures
        ({
            let r = q.dequeued();
            &&& r.depth == q.depth
            &&& r.mode == q.mode
            &&& r.overflow_mode == q.overflow_mode
            &&& r.high_water == q.high_water
            &&& q.mode == QueueMode::Fifo ==> q.items == seq![q.next()] + r.items
            &&& q.mode == QueueMode::Lifo ==> q.items == r.items.push(q.next())
        }),
{
    if q.mode == QueueMode::Fifo {
        assert(q.items =~= seq![q.next()] + q.dequeued().items);
    } else {
        assert(q.items =~= q.dequeued().items.push(q.next()));
    }
}

/// Clearing the mark leaves the entries alone, and the mark then starts from nothing; a
/// queue that was emptied holds nothing, and is set as it was.
pub proof fn law_unmarked<T>(q: QueueView<T>)
    ensures
        q.unmarked() == (QueueView { high_water: 0, ..q }),
        QueueView::<T>::empty(q.depth, q.mode, q.overflow_mode).items.len() == 0,
        QueueView::<T>::empty(q.depth, q.mode, q.overflow_mode).depth == q.depth,
{
}

} // verus!
