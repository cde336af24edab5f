//! The downlink queues.
use vstd::prelude::*;

use super::model;
use super::model::{QueueMetadata, QueuesState, SendState, Trace};
use super::types;
use super::types::{
    Action, BuffQueueDepth, ComQueueDepth, ComQueueEvent, Item, QueueConfigurationEntry,
    QueueConfigurationTable, QueueType, BUFFER_PORT_COUNT, COM_PORT_COUNT,
    TOTAL_PORT_COUNT,
};
use crate::fw::buffer;
use crate::fw::buffer::{Buffer, NO_CONTEXT};
use crate::fw::bytes;
use crate::fw::counter;
use crate::fw::envelope::COM_BUFFER_MAX_SIZE;
use crate::fw::outputs;
use crate::fw::queue;
use crate::fw::queue::{BoundedQueue, Enqueued};
use crate::fw::types::{Apid, CmdResponse, FrameContext, Success};

verus! {

/// Queues for packets and buffers on their way down, served by priority. One buffer is
/// sent at a time, and only after the layer below has reported success.
#[derive(Debug)]
pub struct ComQueue {
    id_base: u32,
    queues: Vec<BoundedQueue<Item>>,
    order: Vec<QueueMetadata>,
    throttle: Vec<bool>,
    send_state: SendState,
    outstanding: bool,
    spare: Option<Vec<u8>>,
}

impl View for ComQueue {
    type V = QueuesState;

    closed spec fn view(&self) -> QueuesState {
        QueuesState {
            id_base: self.id_base,
            queues: outputs::views(self.queues@),
            order: self.order@,
            throttle: self.throttle@,
            send_state: self.send_state,
            outstanding: self.outstanding,
            spare: match self.spare {
                Some(storage) => Some(storage@),
                None => None,
            },
        }
    }
}

/// The state of the queues with a list of outputs.
pub open spec fn trace(c: ComQueue, out: Seq<Action>) -> Trace {
    Trace { state: c@, out: outputs::views(out) }
}

/// The first place from the start with a priority number above `priority`.
fn find_above(order: &Vec<QueueMetadata>, priority: i32) -> (r: usize)
    ensures
        r == model::first_above(order@, priority as int, 0),
        r <= order@.len(),
{
    let mut i: usize = 0;
    while i < order.len() && order[i].priority as i32 <= priority
        invariant
            i <= order@.len(),
            model::first_above(order@, priority as int, 0) == model::first_above(
                order@,
                priority as int,
                i as int,
            ),
        decreases order@.len() - i,
    {
        i += 1;
    }
    i
}

/// The place of a queue.
fn find_place(order: &Vec<QueueMetadata>, queue: usize) -> (r: usize)
    ensures
        r == model::place_of(order@, queue as int, 0),
        r <= order@.len(),
{
    let mut i: usize = 0;
    while i < order.len() && order[i].index != queue
        invariant
            i <= order@.len(),
            model::place_of(order@, queue as int, 0) == model::place_of(
                order@,
                queue as int,
                i as int,
            ),
        decreases order@.len() - i,
    {
        i += 1;
    }
    i
}

/// One more queue is listed behind those of its priority.
proof fn lemma_listed(
    order: Seq<QueueMetadata>,
    entries: Seq<QueueConfigurationEntry>,
    i: int,
)
    requires
        0 <= i < entries.len(),
        i <= usize::MAX,
        model::lists(order, entries.take(i)),
    ensures
        ({
            let e = QueueMetadata { priority: entries[i].priority, index: i as usize };
            let at = model::first_above(order, e.priority as int, 0);
            &&& 0 <= at <= order.len()
            &&& model::lists(order.insert(at, e), entries.take(i + 1))
        }),
{
    let e = QueueMetadata { priority: entries[i].priority, index: i as usize };
    model::lemma_first_above(order, e.priority as int, 0);
    let at = model::first_above(order, e.priority as int, 0);
    let grown = order.insert(at, e);
    let all = entries.take(i + 1);
    assert forall|k: int| 0 <= k < grown.len() implies {
        &&& (#[trigger] grown[k]).index < all.len()
        &&& grown[k].priority == all[grown[k].index as int].priority
    } by {
        if k != at {
            let a = if k < at { k } else { k - 1 };
            assert(grown[k] == order[a]);
        }
    }
    assert forall|a: int, b: int| 0 <= a < b < grown.len() implies {
        ||| (#[trigger] grown[a]).priority < (#[trigger] grown[b]).priority
        ||| grown[a].priority == grown[b].priority && grown[a].index < grown[b].index
    } by {
        let x = if a < at { a } else { a - 1 };
        let y = if b < at { b } else { b - 1 };
        if a != at {
            assert(grown[a] == order[x]);
        }
        if b != at {
            assert(grown[b] == order[y]);
        }
        if a == at && y > at {
            assert(order[at].priority > e.priority);
            assert(order[at].priority <= order[y].priority);
        }
    }
}

/// Listed queues are in a good order of service.
proof fn lemma_lists_is_sound(order: Seq<QueueMetadata>, entries: Seq<QueueConfigurationEntry>)
    requires
        model::lists(order, entries),
    ensures
        model::sorted(order),
        model::distinct(order, entries.len()),
{
}

/// Every queue has a place.
pub proof fn lemma_all_places(order: Seq<QueueMetadata>, queue: int)
    requires
        model::distinct(order, TOTAL_PORT_COUNT as nat),
        order.len() == TOTAL_PORT_COUNT,
        0 <= queue < TOTAL_PORT_COUNT,
    ensures
        exists|i: int| 0 <= i < TOTAL_PORT_COUNT && (#[trigger] order[i]).index == queue,
{
    assert(order[0].index != order[1].index);
    assert(order[0].index != order[2].index);
    assert(order[1].index != order[2].index);
    assert(order[0].index < 3 && order[1].index < 3 && order[2].index < 3);
}

/// Where every place is empty, every queue is.
proof fn lemma_drained(s: QueuesState)
    requires
        s.sound(),
        s.next_place() == s.order.len(),
    ensures
        s.drained(),
{
    model::lemma_first_waiting(s.order, s.queues, 0);
    assert forall|q: int| 0 <= q < s.queues.len() implies (
    #[trigger] s.queues[q]).items.len() == 0 by {
        lemma_all_places(s.order, q);
    }
}

/// Where all queues were empty, what was put in one is what is served next.
pub proof fn lemma_only_item(
    before: QueuesState,
    after: QueuesState,
    queue: int,
    item: model::ItemView,
)
    requires
        before.sound(),
        before.drained(),
        before.configured(),
        0 <= queue < TOTAL_PORT_COUNT,
        after.order == before.order,
        after.queues == before.queues.update(queue, before.queues[queue].enqueued(item)),
    ensures
        after.next_place() < after.order.len(),
        after.order[after.next_place()].index == queue,
        after.next_item() == item,
{
    lemma_all_places(before.order, queue);
    model::lemma_first_waiting(after.order, after.queues, 0);
    assert(after.queues[queue].items =~= seq![item]);
    let k = choose|i: int|
        0 <= i < TOTAL_PORT_COUNT && (#[trigger] before.order[i]).index == queue;
    assert(after.queues[after.order[k].index as int].items.len() > 0);
    let p = after.next_place();
    if p < after.order.len() && after.order[p].index != queue {
        assert(after.queues[after.order[p].index as int] == before.queues[after.order[p].index as int]);
    }
}

impl ComQueue {
    /// The conditions that every operation keeps.
    pub open spec fn wf(self) -> bool {
        self@.valid()
    }

    /// Queues that have not been set up.
    pub fn new(id_base: u32) -> (r: Self)
        ensures
            r.wf(),
            r@ == QueuesState::initial(id_base),
    {
        let mut throttle: Vec<bool> = Vec::new();
        let mut i: usize = 0;
        while i < TOTAL_PORT_COUNT
            invariant
                i <= TOTAL_PORT_COUNT,
                throttle@ == Seq::new(i as nat, |k: int| false),
            decreases TOTAL_PORT_COUNT - i,
        {
            throttle.push(false);
            i += 1;
            assert(throttle@ =~= Seq::new(i as nat, |k: int| false));
        }
        let r = ComQueue {
            id_base,
            queues: Vec::new(),
            order: Vec::new(),
            throttle,
            send_state: SendState::Waiting,
            outstanding: false,
            spare: None,
        };
        assert(r@ =~= QueuesState::initial(id_base));
        r
    }

    /// Registers the commands.
    pub fn reg_commands(&self, out: &mut Vec<Action>)
        requires
            self@.id_base + types::OPCODE_SET_QUEUE_PRIORITY <= u32::MAX,
        ensures
            outputs::views(final(out)@) == outputs::views(old(out)@) + seq![
                Action::CmdReg { op_code: self@.id_base },
                Action::CmdReg { op_code: (self@.id_base + 1) as u32 },
                Action::CmdReg { op_code: (self@.id_base + 2) as u32 },
            ],
    {
        outputs::emit(out, Action::CmdReg { op_code: self.id_base + types::OPCODE_FLUSH_QUEUE });
        outputs::emit(
            out,
            Action::CmdReg { op_code: self.id_base + types::OPCODE_FLUSH_ALL_QUEUES },
        );
        outputs::emit(
            out,
            Action::CmdReg { op_code: self.id_base + types::OPCODE_SET_QUEUE_PRIORITY },
        );
    }

    /// Sets up the queues, all of them empty.
    pub fn configure(&mut self, queue_config: &QueueConfigurationTable)
        requires
            old(self).wf(),
            queue_config.valid(),
        ensures
            final(self).wf(),
            model::lists(final(self)@.order, queue_config.entries@),
            final(self)@ == (QueuesState {
                queues: model::empty_queues(queue_config.entries@),
                order: final(self)@.order,
                ..old(self)@
            }),
    {
        let ghost entries = queue_config.entries@;
        let mut order: Vec<QueueMetadata> = Vec::new();
        let mut queues: Vec<BoundedQueue<Item>> = Vec::new();
        let mut i: usize = 0;
        assert(outputs::views(queues@) =~= model::empty_queues(entries.take(0)));
        while i < TOTAL_PORT_COUNT
            invariant
                i <= TOTAL_PORT_COUNT,
                entries == queue_config.entries@,
                entries.len() == TOTAL_PORT_COUNT,
                model::lists(order@, entries.take(i as int)),
                outputs::views(queues@) == model::empty_queues(entries.take(i as int)),
            decreases TOTAL_PORT_COUNT - i,
        {
            let entry: QueueConfigurationEntry = queue_config.entries[i];
            let at: usize = find_above(&order, entry.priority as i32);
            proof {
                lemma_listed(order@, entries, i as int);
            }
            order.insert(at, QueueMetadata { priority: entry.priority, index: i });
            let ghost before = queues@;
            queues.push(BoundedQueue::new(entry.depth, entry.mode, entry.overflow_mode));
            assert(outputs::views(before).len() == i);
            assert forall|k: int| 0 <= k < i implies outputs::views(queues@)[k]
                == model::empty_queues(entries.take(i + 1))[k] by {
                assert(outputs::views(before)[k] == model::empty_queues(entries.take(i as int))[k]);
                assert(queues@[k] == before[k]);
                assert(entries.take(i as int)[k] == entries.take(i + 1)[k]);
            }
            i += 1;
            assert(outputs::views(queues@) =~= model::empty_queues(entries.take(i as int)));
        }
        assert(entries.take(TOTAL_PORT_COUNT as int) =~= entries);
        proof {
            lemma_lists_is_sound(order@, entries);
        }
        self.order = order;
        self.queues = queues;
        assert forall|k: int| 0 <= k < self@.order.len() implies 0 <= (
        #[trigger] self@.order[k]).priority < TOTAL_PORT_COUNT by {
            assert(entries[self@.order[k].index as int].valid());
        }
        assert forall|k: int| 0 <= k < self@.queues.len() implies (
        #[trigger] self@.queues[k]).wf() by {
            assert(entries[k].valid());
        }
    }

    /// The place of the queue that is served next.
    fn find_next(&self) -> (r: usize)
        requires
            self@.sound(),
        ensures
            r == self@.next_place(),
            r <= self@.order.len(),
    {
        let mut i: usize = 0;
        while i < self.order.len() && self.queues[self.order[i].index].size() == 0
            invariant
                self@.sound(),
                i <= self.order@.len(),
                self@.next_place() == model::first_waiting(self@.order, self@.queues, i as int),
            decreases self.order@.len() - i,
        {
            assert(self@.queues[self.order@[i as int].index as int]
                == self.queues@[self.order@[i as int].index as int]@);
            i += 1;
        }
        proof {
            if i < self.order.len() {
                assert(self@.queues[self.order@[i as int].index as int]
                    == self.queues@[self.order@[i as int].index as int]@);
            }
        }
        i
    }

    /// Sends the next entry in the order of service, if any.
    fn send_next(&mut self, out: &mut Vec<Action>)
        requires
            old(self)@.sound(),
            old(self)@.can_send(),
            old(self)@.send_state == SendState::Ready,
        ensures
            final(self).wf(),
            trace(*final(self), final(out)@) == trace(*old(self), old(out)@).send_next(),
    {
        let ghost before = self@;
        let ghost t = trace(*self, out@);
        let place: usize = self.find_next();
        if place >= self.order.len() {
            proof {
                lemma_drained(before);
            }
            return;
        }
        let entry: QueueMetadata = self.order[place];
        let index: usize = entry.index;
        proof {
            model::lemma_first_waiting(before.order, before.queues, 0);
            model::lemma_served(before.order, place as int, TOTAL_PORT_COUNT as nat);
            assert(before.queues[index as int] == self.queues@[index as int]@);
            queue::law_departures(before.queues[index as int]);
        }
        let dequeued = self.queues[index].dequeue();
        match dequeued {
            None => {},
            Some(item) => {
                let buffer: Buffer = match item {
                    Item::Packet(data) => {
                        assert(model::fits(index as int, item@));
                        match self.spare.take() {
                            Some(storage) => Buffer::from_storage(storage, NO_CONTEXT).overwritten(
                                data.as_slice(),
                            ),
                            None => Buffer::allocate(COM_BUFFER_MAX_SIZE).overwritten(
                                data.as_slice(),
                            ),
                        }
                    },
                    Item::Buffer(buffer) => buffer,
                };
                assert(buffer@ == model::outgoing(before.spare, item@));
                self.throttle.set(index, false);
                let moved: QueueMetadata = self.order.remove(place);
                let at: usize = find_above(&self.order, moved.priority as i32);
                self.order.insert(at, moved);
                self.send_state = SendState::Waiting;
                self.outstanding = true;
                let size: usize = buffer.size();
                proof {
                    if item is Packet {
                        buffer::law_overwritten_shows_data(
                            crate::fw::buffer::BufferView::whole(
                                match before.spare {
                                    Some(storage) => storage,
                                    None => Seq::new(COM_BUFFER_MAX_SIZE as nat, |i: int| 0u8),
                                },
                                NO_CONTEXT,
                            ),
                            item@->Packet_0,
                        );
                    }
                }
                let descriptor: u16 = buffer.byte(0) as u16 * 0x100 + buffer.byte(1) as u16;
                let mut context: FrameContext = FrameContext::default();
                context.apid = Apid::from_repr(descriptor);
                context.com_queue_index = index as i16;
                assert(context == model::outgoing_context(buffer@, index as int));
                outputs::emit(out, Action::DataOut { buffer, context });
            },
        }
        assert(self@.queues =~= before.queues.update(
            index as int,
            before.queues[index as int].dequeued(),
        ));
        assert(self@ =~= t.send_next().state);
        assert(trace(*self, out@).out =~= t.send_next().out);
        assert(self@.sound()) by {
            assert forall|i: int, k: int|
                0 <= i < self@.queues.len() && 0 <= k < self@.queues[i].items.len() implies model::fits(
                i,
                #[trigger] self@.queues[i].items[k],
            ) by {
                if i == index {
                    let items = before.queues[i].items;
                    let d = before.queues[i].dequeued().items;
                    assert(d[k] == items[k] || d[k] == items[k + 1]);
                }
            }
            assert forall|i: int| 0 <= i < self@.queues.len() implies (
            #[trigger] self@.queues[i]).wf() by {
                assert(before.queues[i].wf());
            }
            assert forall|i: int| 0 <= i < self@.order.len() implies 0 <= (
            #[trigger] self@.order[i]).priority < TOTAL_PORT_COUNT by {
                assert(self@.order[i] == model::served(before.order, place as int)[i]);
            }
        }
    }

    /// Puts an entry in a queue and sends the next one where something may be sent. An
    /// entry that is refused comes back.
    fn enqueue(&mut self, queue: usize, item: Item, out: &mut Vec<Action>) -> (r: Option<Item>)
        requires
            old(self).wf(),
            old(self)@.configured(),
            queue < TOTAL_PORT_COUNT,
            model::fits(queue as int, item@),
            old(self)@.send_state == SendState::Ready ==> old(self)@.sendable(item@),
        ensures
            final(self).wf(),
            trace(*final(self), final(out)@) == trace(*old(self), old(out)@).make_room(
                queue as int,
            ).enqueue(queue as int, item@),
            match r {
                Some(back) => old(self)@.queues[queue as int].refuses() && back@ == item@,
                None => !old(self)@.queues[queue as int].refuses(),
            },
    {
        let ghost before = self@;
        let ghost t = trace(*self, out@);
        let ghost q = queue as int;
        let ghost room = t.make_room(q);
        let ghost stored = room.store(q, item@);
        assert(before.queues[q] == self.queues@[q]@);
        let result = self.queues[queue].enqueue(item);
        let mut overflowed: bool = true;
        let mut back: Option<Item> = None;
        match result {
            Enqueued::Accepted => {
                overflowed = false;
            },
            Enqueued::Refused(refused) => {
                back = Some(refused);
            },
            Enqueued::Discarded(oldest) => {
                proof {
                    assert(model::fits(q, before.queues[q].items[0]));
                }
                match oldest {
                    Item::Buffer(buffer) => {
                        outputs::emit(
                            out,
                            Action::BufferReturnOut { port: queue - COM_PORT_COUNT, buffer },
                        );
                    },
                    Item::Packet(_) => {},
                }
            },
        }
        assert(overflowed == before.queues[q].full());
        assert(outputs::views(out@) =~= room.out);
        if overflowed && !self.throttle[queue] {
            let event = if queue < COM_PORT_COUNT {
                ComQueueEvent::QueueOverflow {
                    queue_type: QueueType::ComQueue,
                    index: queue as i16,
                }
            } else {
                ComQueueEvent::QueueOverflow {
                    queue_type: QueueType::BufferQueue,
                    index: (queue - COM_PORT_COUNT) as i16,
                }
            };
            outputs::emit(out, Action::Event(event));
            self.throttle.set(queue, true);
        }
        assert(self@.queues =~= before.queues.update(q, before.queues[q].enqueued(item@)));
        assert(trace(*self, out@) =~= stored);
        assert(self@.sound()) by {
            queue::law_queue_stays_within_depth(before.queues[q], item@);
            assert forall|i: int| 0 <= i < self@.queues.len() implies (
            #[trigger] self@.queues[i]).wf() by {
                assert(before.queues[i].wf());
            }
            assert forall|i: int, k: int|
                0 <= i < self@.queues.len() && 0 <= k < self@.queues[i].items.len() implies model::fits(
                i,
                #[trigger] self@.queues[i].items[k],
            ) by {
                if i == q {
                    let items = before.queues[i].items;
                    let e = before.queues[i].enqueued(item@).items;
                    assert(e[k] == item@ || e[k] == items[k] || e[k] == items[k + 1]);
                } else {
                    assert(self@.queues[i].items[k] == before.queues[i].items[k]);
                }
            }
        }
        if self.send_state == SendState::Ready {
            proof {
                lemma_only_item(before, self@, q, item@);
            }
            self.send_next(out);
        }
        back
    }

    /// The layer below reports on the last send. After a success the next entry is sent.
    pub fn com_status_in(&mut self, condition: Success, out: &mut Vec<Action>)
        requires
            old(self).wf(),
            old(self)@.takes_status(condition),
        ensures
            final(self).wf(),
            trace(*final(self), final(out)@) == trace(*old(self), old(out)@).com_status(condition),
    {
        let ghost before = self@;
        if condition == Success::Success {
            self.send_state = SendState::Ready;
            assert(self@ =~= (QueuesState { send_state: SendState::Ready, ..before }));
            self.send_next(out);
        }
    }

    /// A packet comes in at a port.
    pub fn com_packet_queue_in(&mut self, port: i16, data: &[u8], out: &mut Vec<Action>)
        requires
            old(self).wf(),
            old(self)@.takes_packet(port as int, data@),
        ensures
            final(self).wf(),
            trace(*final(self), final(out)@) == trace(*old(self), old(out)@).packet_in(
                port as int,
                data@,
            ),
    {
        let ghost t = trace(*self, out@);
        let item = Item::Packet(bytes::copy_bytes(data));
        let _ = self.enqueue(port as usize, item, out);
        proof {
            assert(t.make_room(port as int).out =~= t.out);
        }
    }

    /// A buffer comes in at a port.
    pub fn buffer_queue_in(&mut self, port: i16, buffer: Buffer, out: &mut Vec<Action>)
        requires
            old(self).wf(),
            old(self)@.takes_buffer(port as int, buffer@),
        ensures
            final(self).wf(),
            trace(*final(self), final(out)@) == trace(*old(self), old(out)@).buffer_in(
                port as int,
                buffer@,
            ),
    {
        // The window of a buffer lies within its storage.
        let _: usize = buffer.size();
        let refused = self.enqueue(port as usize + COM_PORT_COUNT, Item::Buffer(buffer), out);
        match refused {
            Some(Item::Buffer(back)) => {
                outputs::emit(out, Action::BufferReturnOut { port: port as usize, buffer: back });
            },
            _ => {},
        }
    }

    /// A buffer found no place among the queued messages; it goes back to where it came
    /// from.
    pub fn buffer_queue_in_overflow(&self, port: i16, buffer: Buffer, out: &mut Vec<Action>)
        requires
            0 <= port < BUFFER_PORT_COUNT,
        ensures
            outputs::views(final(out)@) == outputs::views(old(out)@).push(
                Action::BufferReturnOut { port: port as usize, buffer: buffer@ },
            ),
    {
        outputs::emit(out, Action::BufferReturnOut { port: port as usize, buffer });
    }

    /// A sent buffer comes back.
    pub fn data_return_in(&mut self, buffer: Buffer, context: &FrameContext, out: &mut Vec<Action>)
        requires
            old(self).wf(),
            old(self)@.takes_return(*context),
        ensures
            final(self).wf(),
            trace(*final(self), final(out)@) == trace(*old(self), old(out)@).data_return(
                buffer@,
                *context,
            ),
    {
        let ghost t = trace(*self, out@);
        self.outstanding = false;
        let index: i16 = context.com_queue_index;
        if index >= COM_PORT_COUNT as i16 {
            outputs::emit(
                out,
                Action::BufferReturnOut { port: index as usize - COM_PORT_COUNT, buffer },
            );
        } else {
            self.spare = Some(buffer.into_storage());
        }
        assert(trace(*self, out@) =~= t.data_return(buffer@, *context));
    }

    /// Writes how full the queues have been to telemetry, and forgets it.
    pub fn run_in(&mut self, out: &mut Vec<Action>)
        requires
            old(self).wf(),
            old(self)@.configured(),
        ensures
            final(self).wf(),
            trace(*final(self), final(out)@) == trace(*old(self), old(out)@).run(),
    {
        let ghost before = self@;
        let ghost t = trace(*self, out@);
        let mut com_depth = ComQueueDepth::default();
        let mut buff_depth = BuffQueueDepth::default();
        let mut i: usize = 0;
        while i < TOTAL_PORT_COUNT
            invariant
                i <= TOTAL_PORT_COUNT,
                before.configured(),
                self.queues@.len() == TOTAL_PORT_COUNT,
                self@ == (QueuesState {
                    queues: Seq::new(
                        TOTAL_PORT_COUNT as nat,
                        |k: int|
                            if k < i {
                                before.queues[k].unmarked()
                            } else {
                                before.queues[k]
                            },
                    ),
                    ..before
                }),
                forall|k: int|
                    0 <= k < i && k < COM_PORT_COUNT ==> #[trigger] com_depth.0@[k] == (
                    before.queues[k].high_water % 0x1_0000_0000) as u32,
                forall|k: int|
                    0 <= k < i - COM_PORT_COUNT ==> #[trigger] buff_depth.0@[k] == (
                    before.queues[COM_PORT_COUNT + k].high_water % 0x1_0000_0000) as u32,
            decreases TOTAL_PORT_COUNT - i,
        {
            let ghost mid = self@;
            assert(mid.queues[i as int] == before.queues[i as int]);
            assert(mid.queues[i as int] == self.queues@[i as int]@);
            let mark: u32 = (self.queues[i].high_water_mark() as u64 % 0x1_0000_0000) as u32;
            self.queues[i].clear_high_water_mark();
            if i < COM_PORT_COUNT {
                com_depth.0[i] = mark;
            } else {
                buff_depth.0[i - COM_PORT_COUNT] = mark;
            }
            assert(self@.queues =~= mid.queues.update(i as int, before.queues[i as int].unmarked()));
            i += 1;
            assert(self@.queues =~= Seq::new(
                TOTAL_PORT_COUNT as nat,
                |k: int|
                    if k < i {
                        before.queues[k].unmarked()
                    } else {
                        before.queues[k]
                    },
            ));
        }
        assert(com_depth.0@ =~= model::marks(before.queues, 0, COM_PORT_COUNT as int));
        assert(buff_depth.0@ =~= model::marks(
            before.queues,
            COM_PORT_COUNT as int,
            TOTAL_PORT_COUNT as int,
        ));
        outputs::emit(
            out,
            Action::Tlm { id: types::CHANID_COM_QUEUE_DEPTH, value: com_depth.serialize() },
        );
        outputs::emit(
            out,
            Action::Tlm { id: types::CHANID_BUFF_QUEUE_DEPTH, value: buff_depth.serialize() },
        );
        assert(self@.queues =~= t.run().state.queues);
        assert(trace(*self, out@) =~= t.run());
        proof {
            assert forall|k: int| 0 <= k < self@.queues.len() implies (
            #[trigger] self@.queues[k]).wf() by {
                assert(before.queues[k].wf());
            }
            assert forall|a: int, k: int|
                0 <= a < self@.queues.len() && 0 <= k < self@.queues[a].items.len() implies model::fits(
                a,
                #[trigger] self@.queues[a].items[k],
            ) by {
                assert(model::fits(a, before.queues[a].items[k]));
            }
            if self@.send_state == SendState::Ready {
                assert forall|k: int| 0 <= k < self@.queues.len() implies (
                #[trigger] self@.queues[k]).items.len() == 0 by {
                    assert(before.queues[k].items.len() == 0);
                }
            }
        }
    }

    /// Empties a queue; its buffers go back to their senders.
    fn drain_queue(&mut self, queue: usize, out: &mut Vec<Action>)
        requires
            old(self).wf(),
            old(self)@.configured(),
            queue < TOTAL_PORT_COUNT,
        ensures
            final(self).wf(),
            trace(*final(self), final(out)@) == trace(*old(self), old(out)@).flush(queue as int),
    {
        let ghost before = self@;
        let ghost t = trace(*self, out@);
        let ghost q = queue as int;
        let ghost all = before.queues[q].departures();
        let ghost mut gone: nat = 0;
        assert(before.queues[q] == self.queues@[q]@);
        assert(all.skip(0) =~= all);
        assert(t.out + model::handed_back(q, all.take(0)) =~= t.out);
        assert(before.queues.update(q, before.queues[q]) =~= before.queues);
        while self.queues[queue].size() > 0
            invariant
                q == queue,
                queue < TOTAL_PORT_COUNT,
                before.valid(),
                before.configured(),
                self.queues@.len() == TOTAL_PORT_COUNT,
                all == before.queues[q].departures(),
                gone <= all.len(),
                self@ == (QueuesState {
                    queues: before.queues.update(q, self.queues@[q]@),
                    ..before
                }),
                self.queues@[q]@ == (queue::QueueView {
                    items: self.queues@[q]@.items,
                    ..before.queues[q]
                }),
                self.queues@[q]@.departures() == all.skip(gone as int),
                outputs::views(out@) == t.out + model::handed_back(q, all.take(gone as int)),
            decreases self.queues@[q]@.items.len(),
        {
            let ghost mid = self.queues@[q]@;
            let ghost held = self.queues@;
            proof {
                queue::law_departures(mid);
                assert(all.len() == before.queues[q].items.len());
                assert(mid.departures().len() == mid.items.len());
                assert(mid.next() == all[gone as int]);
                assert(model::fits(q, all[gone as int])) by {
                    let items = before.queues[q].items;
                    let k = match before.queues[q].mode {
                        queue::QueueMode::Fifo => gone as int,
                        queue::QueueMode::Lifo => items.len() - 1 - gone,
                    };
                    assert(all[gone as int] == items[k]);
                    assert(model::fits(q, before.queues[q].items[k]));
                }
            }
            let taken = self.queues[queue].dequeue();
            match taken {
                Some(Item::Buffer(buffer)) => {
                    outputs::emit(
                        out,
                        Action::BufferReturnOut { port: queue - COM_PORT_COUNT, buffer },
                    );
                },
                _ => {},
            }
            proof {
                gone = gone + 1;
                assert forall|k: int| 0 <= k < TOTAL_PORT_COUNT && k != q implies
                    self.queues@[k]@ == before.queues[k] by {
                    assert(outputs::views(held)[k] == held[k]@);
                }
                assert(self@.queues =~= before.queues.update(q, self.queues@[q]@));
                assert(all.skip(gone - 1).skip(1) =~= all.skip(gone as int));
                assert(outputs::views(out@) =~= t.out + model::handed_back(
                    q,
                    all.take(gone as int),
                ));
            }
        }
        proof {
            let rest = self.queues@[q]@;
            assert(rest.departures().len() == 0);
            assert(gone == all.len());
            assert(all.take(all.len() as int) =~= all);
            assert(rest.items =~= Seq::empty());
            assert(trace(*self, out@) =~= t.flush(q));
            assert forall|a: int, k: int|
                0 <= a < self@.queues.len() && 0 <= k < self@.queues[a].items.len() implies model::fits(
                a,
                #[trigger] self@.queues[a].items[k],
            ) by {
                assert(model::fits(a, before.queues[a].items[k]));
            }
            assert forall|k: int| 0 <= k < self@.queues.len() implies (
            #[trigger] self@.queues[k]).wf() by {
                assert(before.queues[k].wf());
            }
        }
    }

    /// Answers a command.
    fn answer(&self, op_code: u32, cmd_seq: u32, response: CmdResponse, out: &mut Vec<Action>)
        ensures
            trace(*self, final(out)@) == trace(*self, old(out)@).answer(op_code, cmd_seq, response),
    {
        outputs::emit(out, Action::CmdResponse { op_code, cmd_seq, response });
    }

    /// The queue with a number among those of a type.
    fn get_queue_num(queue_type: QueueType, index: i16) -> (r: Option<usize>)
        ensures
            match r {
                Some(queue) => model::queue_num(queue_type, index) == Some(queue as int),
                None => model::queue_num(queue_type, index) is None,
            },
    {
        let queue: i32 = match queue_type {
            QueueType::ComQueue => index as i32,
            QueueType::BufferQueue => index as i32 + COM_PORT_COUNT as i32,
        };
        if 0 <= queue && queue < TOTAL_PORT_COUNT as i32 {
            Some(queue as usize)
        } else {
            None
        }
    }

    /// The queue that arguments begin with.
    fn read_queue(args: &[u8]) -> (r: Result<(QueueType, i16), CmdResponse>)
        ensures
            match r {
                Ok((queue_type, index)) => model::queue_args(args@) == Ok::<_, CmdResponse>(
                    model::FlushArgs { queue_type, index },
                ),
                Err(response) => model::queue_args(args@) == Err::<model::FlushArgs, _>(response),
            },
    {
        match bytes::read_u8(args, 0) {
            Err(_) => Err(CmdResponse::FormatError),
            Ok(raw) => match QueueType::from_repr(raw) {
                None => Err(CmdResponse::ValidationError),
                Some(queue_type) => match bytes::read_u16(args, 1) {
                    Err(_) => Err(CmdResponse::FormatError),
                    Ok(index) => Ok((queue_type, bytes::to_signed16(index))),
                },
            },
        }
    }

    /// The command to empty one queue.
    fn flush_queue(&mut self, op_code: u32, cmd_seq: u32, args: &[u8], out: &mut Vec<Action>)
        requires
            old(self).wf(),
            match model::flush_args(args@) {
                Ok(a) => model::queue_num(a.queue_type, a.index) is Some ==> old(
                    self,
                )@.configured(),
                Err(_) => true,
            },
        ensures
            final(self).wf(),
            trace(*final(self), final(out)@) == trace(*old(self), old(out)@).flush_queue(
                op_code,
                cmd_seq,
                args@,
            ),
    {
        match Self::read_queue(args) {
            Err(response) => {
                self.answer(op_code, cmd_seq, response, out);
            },
            Ok((queue_type, index)) => {
                if args.len() != 3 {
                    self.answer(op_code, cmd_seq, CmdResponse::FormatError, out);
                    return;
                }
                match Self::get_queue_num(queue_type, index) {
                    None => {
                        self.answer(op_code, cmd_seq, CmdResponse::ValidationError, out);
                    },
                    Some(queue) => {
                        self.drain_queue(queue, out);
                        self.answer(op_code, cmd_seq, CmdResponse::OK, out);
                    },
                }
            },
        }
    }

    /// The command to empty all queues.
    fn flush_all_queues(&mut self, op_code: u32, cmd_seq: u32, args: &[u8], out: &mut Vec<Action>)
        requires
            old(self).wf(),
            args@.len() == 0 ==> old(self)@.configured(),
        ensures
            final(self).wf(),
            trace(*final(self), final(out)@) == trace(*old(self), old(out)@).flush_all_queues(
                op_code,
                cmd_seq,
                args@,
            ),
    {
        if args.len() != 0 {
            self.answer(op_code, cmd_seq, CmdResponse::FormatError, out);
            return;
        }
        let ghost t = trace(*self, out@);
        let mut i: usize = 0;
        while i < TOTAL_PORT_COUNT
            invariant
                i <= TOTAL_PORT_COUNT,
                self.wf(),
                self@.configured(),
                trace(*self, out@) == t.flush_first(i as nat),
            decreases TOTAL_PORT_COUNT - i,
        {
            self.drain_queue(i, out);
            i += 1;
        }
        self.answer(op_code, cmd_seq, CmdResponse::OK, out);
    }

    /// Gives a queue another priority.
    fn set_priority(&mut self, queue: usize, priority: i16, out: &Vec<Action>)
        requires
            old(self).wf(),
            0 <= priority < TOTAL_PORT_COUNT,
        ensures
            final(self).wf(),
            trace(*final(self), out@) == trace(*old(self), out@).set_priority(
                queue as int,
                priority,
            ),
    {
        let ghost before = self@;
        let ghost t = trace(*self, out@);
        let place: usize = find_place(&self.order, queue);
        if place < self.order.len() {
            proof {
                model::lemma_place_of(before.order, queue as int, 0);
                model::lemma_reprioritized(
                    before.order,
                    place as int,
                    priority,
                    TOTAL_PORT_COUNT as nat,
                );
            }
            let mut entry: QueueMetadata = self.order.remove(place);
            let at: usize = if priority < entry.priority {
                find_above(&self.order, priority as i32)
            } else if priority > entry.priority {
                find_above(&self.order, priority as i32 - 1)
            } else {
                place
            };
            entry.priority = priority;
            self.order.insert(at, entry);
            assert(trace(*self, out@) =~= t.set_priority(queue as int, priority));
            assert forall|i: int| 0 <= i < self@.order.len() implies 0 <= (
            #[trigger] self@.order[i]).priority < TOTAL_PORT_COUNT by {
                let r = model::reprioritized(before.order, place as int, priority);
                assert(self@.order[i] == r[i]);
            }
        }
    }

    /// The command to change the priority of a queue.
    fn set_queue_priority(
        &mut self,
        op_code: u32,
        cmd_seq: u32,
        args: &[u8],
        out: &mut Vec<Action>,
    )
        requires
            old(self).wf(),
        ensures
            final(self).wf(),
            trace(*final(self), final(out)@) == trace(*old(self), old(out)@).set_queue_priority(
                op_code,
                cmd_seq,
                args@,
            ),
    {
        match Self::read_queue(args) {
            Err(response) => {
                self.answer(op_code, cmd_seq, response, out);
            },
            Ok((queue_type, index)) => match bytes::read_u16(args, 3) {
                Err(_) => {
                    self.answer(op_code, cmd_seq, CmdResponse::FormatError, out);
                },
                Ok(raw) => {
                    if args.len() != 5 {
                        self.answer(op_code, cmd_seq, CmdResponse::FormatError, out);
                        return;
                    }
                    let priority: i16 = bytes::to_signed16(raw);
                    match Self::get_queue_num(queue_type, index) {
                        None => {
                            self.answer(op_code, cmd_seq, CmdResponse::ValidationError, out);
                        },
                        Some(queue) => {
                            if priority < 0 || priority as usize >= TOTAL_PORT_COUNT {
                                self.answer(op_code, cmd_seq, CmdResponse::ValidationError, out);
                                return;
                            }
                            self.set_priority(queue, priority, out);
                            outputs::emit(
                                out,
                                Action::Event(
                                    ComQueueEvent::QueuePriorityChanged {
                                        queue_type,
                                        index,
                                        priority,
                                    },
                                ),
                            );
                            self.answer(op_code, cmd_seq, CmdResponse::OK, out);
                        },
                    }
                },
            },
        }
    }

    /// A command comes in.
    pub fn cmd_in(&mut self, op_code: u32, cmd_seq: u32, args: &[u8], out: &mut Vec<Action>)
        requires
            old(self).wf(),
            old(self)@.takes_command(op_code, args@),
        ensures
            final(self).wf(),
            trace(*final(self), final(out)@) == trace(*old(self), old(out)@).command(
                op_code,
                cmd_seq,
                args@,
            ),
    {
        let local: u32 = counter::offset(op_code, self.id_base);
        if local == types::OPCODE_FLUSH_QUEUE {
            self.flush_queue(op_code, cmd_seq, args, out);
        } else if local == types::OPCODE_FLUSH_ALL_QUEUES {
            self.flush_all_queues(op_code, cmd_seq, args, out);
        } else if local == types::OPCODE_SET_QUEUE_PRIORITY {
            self.set_queue_priority(op_code, cmd_seq, args, out);
        } else {
            self.answer(op_code, cmd_seq, CmdResponse::InvalidOpcode, out);
        }
    }

    /// The number that the component's identifiers start at.
    pub fn id_base(&self) -> (r: u32)
        ensures
            r == self@.id_base,
    {
        self.id_base
    }

    /// Whether the queues have been set up.
    pub fn is_configured(&self) -> (r: bool)
        ensures
            r == self@.configured(),
    {
        self.queues.len() == TOTAL_PORT_COUNT
    }

    /// Whether another buffer may be sent.
    pub fn is_ready(&self) -> (r: bool)
        ensures
            r == (self@.send_state == SendState::Ready),
    {
        self.send_state == SendState::Ready
    }

    /// Whether a sent buffer has not come back yet.
    pub fn is_outstanding(&self) -> (r: bool)
        ensures
            r == self@.outstanding,
    {
        self.outstanding
    }

    /// Whether storage for the next packet to be sent has come back.
    pub fn has_spare(&self) -> (r: bool)
        ensures
            r == (self@.spare is Some),
    {
        self.spare.is_some()
    }

    /// Whether a packet can be sent.
    fn sends_packet(&self, data: &Vec<u8>) -> (r: bool)
        ensures
            r == self@.sendable(Item::Packet(data@)),
    {
        !self.outstanding && data.len() >= 2 && match &self.spare {
            Some(storage) => data.len() <= storage.len(),
            None => true,
        }
    }

    /// Whether a buffer can be sent.
    fn sends_buffer(&self, buffer: &Buffer) -> (r: bool)
        ensures
            r == self@.sendable(Item::Buffer(buffer@)),
    {
        !self.outstanding && buffer.size() >= 2
    }

    /// Whether a report on the last send can be taken.
    pub fn takes_status(&self, condition: Success) -> (r: bool)
        requires
            self.wf(),
        ensures
            r == self@.takes_status(condition),
    {
        if self.send_state == SendState::Ready {
            return false;
        }
        if condition == Success::Failure {
            return true;
        }
        let place: usize = self.find_next();
        if place >= self.order.len() {
            return true;
        }
        let index: usize = self.order[place].index;
        proof {
            model::lemma_first_waiting(self@.order, self@.queues, 0);
            assert(self@.queues[index as int] == self.queues@[index as int]@);
        }
        match self.queues[index].peek() {
            Some(Item::Packet(data)) => self.sends_packet(data),
            Some(Item::Buffer(buffer)) => self.sends_buffer(buffer),
            None => true,
        }
    }

    /// Whether a packet can be taken.
    pub fn takes_packet(&self, port: i16, data: &Vec<u8>) -> (r: bool)
        ensures
            r == self@.takes_packet(port as int, data@),
    {
        self.is_configured() && port >= 0 && (port as usize) < COM_PORT_COUNT && data.len()
            <= COM_BUFFER_MAX_SIZE && (!self.is_ready() || self.sends_packet(data))
    }

    /// Whether a buffer can be taken.
    pub fn takes_buffer(&self, port: i16, buffer: &Buffer) -> (r: bool)
        ensures
            r == self@.takes_buffer(port as int, buffer@),
    {
        self.is_configured() && port >= 0 && (port as usize) < BUFFER_PORT_COUNT && (
        !self.is_ready() || self.sends_buffer(buffer))
    }

    /// Whether a sent buffer can come back.
    pub fn takes_return(&self, context: &FrameContext) -> (r: bool)
        ensures
            r == self@.takes_return(*context),
    {
        let index: i32 = context.com_queue_index as i32;
        self.outstanding && i16::MIN as i32 + COM_PORT_COUNT as i32 <= index && index
            < TOTAL_PORT_COUNT as i32
    }

    /// Whether a command can be taken.
    pub fn takes_command(&self, op_code: u32, args: &[u8]) -> (r: bool)
        ensures
            r == self@.takes_command(op_code, args@),
    {
        if self.is_configured() {
            return true;
        }
        let local: u32 = counter::offset(op_code, self.id_base);
        if local == types::OPCODE_FLUSH_QUEUE {
            match Self::read_queue(args) {
                Ok((queue_type, index)) => args.len() != 3 || Self::get_queue_num(
                    queue_type,
                    index,
                ).is_none(),
                Err(_) => true,
            }
        } else {
            !(local == types::OPCODE_FLUSH_ALL_QUEUES && args.len() == 0)
        }
    }
}

} // verus!
