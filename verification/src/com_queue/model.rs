//! What the downlink queues do, as functions from a state and the outputs so far to the
//! next state and outputs.
use vstd::prelude::*;

use super::types;
use super::types::{
    Action, ComQueueEvent, Item, QueueConfigurationEntry, QueueType, BUFFER_PORT_COUNT,
    COM_PORT_COUNT, TOTAL_PORT_COUNT,
};
use crate::fw::buffer::{BufferView, NO_CONTEXT};
use crate::fw::bytes;
use crate::fw::counter;
use crate::fw::envelope::COM_BUFFER_MAX_SIZE;
use crate::fw::queue::QueueView;
use crate::fw::types::{Apid, CmdResponse, FrameContext, Success};

verus! {

/// Whether another buffer may be sent.
#[derive(Debug, Clone, Copy, PartialEq, Eq, Structural)]
pub enum SendState {
    /// The next entry can be sent.
    Ready,
    /// The last buffer sent has not been answered for.
    Waiting,
}

/// The place of a queue in the order of service.
#[derive(Debug, Clone, Copy, PartialEq, Eq, Structural)]
pub struct QueueMetadata {
    /// The priority; lower numbers are served first.
    pub priority: i16,
    /// The queue.
    pub index: usize,
}

/// An entry of a queue as contracts see it.
pub type ItemView = Item<Seq<u8>, BufferView>;

/// An output as contracts see it.
pub type ActionView = Action<Seq<u8>, BufferView>;

/// The state of the downlink queues.
#[verifier::ext_equal]
pub struct QueuesState {
    /// The number that the component's identifiers start at.
    pub id_base: u32,
    /// The queues, packet queues first; none before they are set up.
    pub queues: Seq<QueueView<ItemView>>,
    /// The order of service.
    pub order: Seq<QueueMetadata>,
    /// Of which queues an overflow has been reported since they last sent something.
    pub throttle: Seq<bool>,
    /// Whether another buffer may be sent.
    pub send_state: SendState,
    /// Whether a sent buffer has not come back yet.
    pub outstanding: bool,
    /// Storage for the next packet to be sent, if some came back.
    pub spare: Option<Seq<u8>>,
}

/// Whether priorities never fall from one place to the next.
pub open spec fn sorted(order: Seq<QueueMetadata>) -> bool {
    forall|i: int, j: int|
        0 <= i < j < order.len() ==> (#[trigger] order[i]).priority <= (
        #[trigger] order[j]).priority
}

/// Whether no queue has two places, and all places are of one of `n` queues.
pub open spec fn distinct(order: Seq<QueueMetadata>, n: nat) -> bool {
    &&& forall|i: int| 0 <= i < order.len() ==> (#[trigger] order[i]).index < n
    &&& forall|i: int, j: int|
        0 <= i < j < order.len() ==> (#[trigger] order[i]).index != (#[trigger] order[j]).index
}

/// Whether an entry belongs in a queue.
pub open spec fn fits(queue: int, item: ItemView) -> bool {
    match item {
        Item::Packet(data) => queue < COM_PORT_COUNT && data.len() <= COM_BUFFER_MAX_SIZE,
        Item::Buffer(buffer) => queue >= COM_PORT_COUNT && buffer.wf(),
    }
}

impl QueuesState {
    /// Whether the queues have been set up.
    pub open spec fn configured(self) -> bool {
        self.queues.len() == TOTAL_PORT_COUNT
    }

    /// Every queue has one place in the order of service, which follows the priorities,
    /// and holds only what belongs there.
    pub open spec fn sound(self) -> bool {
        &&& self.queues.len() == 0 || self.configured()
        &&& self.order.len() == self.queues.len()
        &&& self.throttle.len() == TOTAL_PORT_COUNT
        &&& sorted(self.order)
        &&& distinct(self.order, TOTAL_PORT_COUNT as nat)
        &&& forall|i: int|
            0 <= i < self.order.len() ==> 0 <= (#[trigger] self.order[i]).priority
                < TOTAL_PORT_COUNT
        &&& forall|i: int| 0 <= i < self.queues.len() ==> (#[trigger] self.queues[i]).wf()
        &&& forall|i: int, k: int|
            0 <= i < self.queues.len() && 0 <= k < self.queues[i].items.len() ==> fits(
                i,
                #[trigger] self.queues[i].items[k],
            )
    }

    /// The conditions that every operation keeps: nothing waits in a queue while
    /// something may be sent.
    pub open spec fn valid(self) -> bool {
        &&& self.sound()
        &&& self.send_state == SendState::Ready ==> self.drained()
    }

    /// Whether nothing waits in any queue.
    pub open spec fn drained(self) -> bool {
        forall|i: int|
            0 <= i < self.queues.len() ==> (#[trigger] self.queues[i]).items.len() == 0
    }

    /// Before the queues are set up.
    pub open spec fn initial(id_base: u32) -> QueuesState {
        QueuesState {
            id_base,
            queues: Seq::empty(),
            order: Seq::empty(),
            throttle: Seq::new(TOTAL_PORT_COUNT as nat, |i: int| false),
            send_state: SendState::Waiting,
            outstanding: false,
            spare: None,
        }
    }

    /// Whether an entry can be sent. It needs a packet descriptor, no other buffer may be
    /// on its way, and storage that came back has to be large enough for a packet.
    pub open spec fn sendable(self, item: ItemView) -> bool {
        &&& !self.outstanding
        &&& match item {
            Item::Packet(data) => {
                &&& data.len() >= 2
                &&& self.spare is Some ==> data.len() <= self.spare->0.len()
            },
            Item::Buffer(buffer) => buffer.size >= 2,
        }
    }

    /// The place of the queue that is served next; the number of places where nothing
    /// waits.
    pub open spec fn next_place(self) -> int {
        first_waiting(self.order, self.queues, 0)
    }

    /// The entry that is served next.
    pub open spec fn next_item(self) -> ItemView {
        self.queues[self.order[self.next_place()].index as int].next()
    }

    /// Whether the entry that is served next, if any, can be sent.
    pub open spec fn can_send(self) -> bool {
        self.next_place() < self.order.len() ==> self.sendable(self.next_item())
    }

    /// Whether a report on the last send can be taken: there is a send to report on.
    pub open spec fn takes_status(self, condition: Success) -> bool {
        &&& self.send_state == SendState::Waiting
        &&& condition == Success::Success ==> self.can_send()
    }

    /// Whether a packet can be taken.
    pub open spec fn takes_packet(self, port: int, data: Seq<u8>) -> bool {
        &&& self.configured()
        &&& 0 <= port < COM_PORT_COUNT
        &&& data.len() <= COM_BUFFER_MAX_SIZE
        &&& self.send_state == SendState::Ready ==> self.sendable(Item::Packet(data))
    }

    /// Whether a buffer can be taken.
    pub open spec fn takes_buffer(self, port: int, buffer: BufferView) -> bool {
        &&& self.configured()
        &&& 0 <= port < BUFFER_PORT_COUNT
        &&& self.send_state == SendState::Ready ==> self.sendable(Item::Buffer(buffer))
    }

    /// Whether a sent buffer can come back.
    pub open spec fn takes_return(self, context: FrameContext) -> bool {
        &&& self.outstanding
        &&& i16::MIN + COM_PORT_COUNT <= context.com_queue_index < TOTAL_PORT_COUNT
    }

    /// Whether a command can be taken.
    pub open spec fn takes_command(self, op_code: u32, args: Seq<u8>) -> bool {
        flushes(self.id_base, op_code, args) ==> self.configured()
    }
}

/// The first place from `from` on whose queue holds something; the number of places
/// where none does.
pub open spec fn first_waiting(
    order: Seq<QueueMetadata>,
    queues: Seq<QueueView<ItemView>>,
    from: int,
) -> int
    decreases order.len() - from,
{
    if from >= order.len() {
        order.len() as int
    } else if queues[order[from].index as int].items.len() > 0 {
        from
    } else {
        first_waiting(order, queues, from + 1)
    }
}

/// The first place from `from` on with a priority number above `priority`; the number of
/// places where there is none.
pub open spec fn first_above(order: Seq<QueueMetadata>, priority: int, from: int) -> int
    decreases order.len() - from,
{
    if from >= order.len() {
        order.len() as int
    } else if order[from].priority > priority {
        from
    } else {
        first_above(order, priority, from + 1)
    }
}

/// The place of a queue from `from` on; the number of places where there is none.
pub open spec fn place_of(order: Seq<QueueMetadata>, queue: int, from: int) -> int
    decreases order.len() - from,
{
    if from >= order.len() {
        order.len() as int
    } else if order[from].index == queue {
        from
    } else {
        place_of(order, queue, from + 1)
    }
}

/// The order of service after the queue at a place was served: it comes last among the
/// queues of its priority.
pub open spec fn served(order: Seq<QueueMetadata>, place: int) -> Seq<QueueMetadata> {
    let others = order.remove(place);
    others.insert(first_above(others, order[place].priority as int, 0), order[place])
}

/// The order of service after the queue at a place got another priority. The other
/// queues keep their order; among those of its new priority it comes last where it was
/// served later than they are, and first where it was served earlier.
pub open spec fn reprioritized(
    order: Seq<QueueMetadata>,
    place: int,
    priority: i16,
) -> Seq<QueueMetadata> {
    let others = order.remove(place);
    let at = if priority < order[place].priority {
        first_above(others, priority as int, 0)
    } else if priority > order[place].priority {
        first_above(others, priority - 1, 0)
    } else {
        place
    };
    others.insert(at, QueueMetadata { priority, ..order[place] })
}

/// Whether `order` lists the queues of a configuration by priority, and queues of one
/// priority in the order of the configuration.
pub open spec fn lists(
    order: Seq<QueueMetadata>,
    entries: Seq<QueueConfigurationEntry>,
) -> bool {
    &&& order.len() == entries.len()
    &&& forall|i: int|
        0 <= i < order.len() ==> {
            &&& (#[trigger] order[i]).index < entries.len()
            &&& order[i].priority == entries[order[i].index as int].priority
        }
    &&& forall|i: int, j: int|
        0 <= i < j < order.len() ==> {
            ||| (#[trigger] order[i]).priority < (#[trigger] order[j]).priority
            ||| order[i].priority == order[j].priority && order[i].index < order[j].index
        }
}

/// The empty queues of a configuration.
pub open spec fn empty_queues(entries: Seq<QueueConfigurationEntry>) -> Seq<QueueView<ItemView>> {
    Seq::new(
        entries.len(),
        |i: int|
            QueueView::empty(entries[i].depth as nat, entries[i].mode, entries[i].overflow_mode),
    )
}

/// What a queue holds.
pub open spec fn type_of(queue: int) -> QueueType {
    if queue < COM_PORT_COUNT {
        QueueType::ComQueue
    } else {
        QueueType::BufferQueue
    }
}

/// The number of a queue among those of its type.
pub open spec fn port_of(queue: int) -> int {
    if queue < COM_PORT_COUNT {
        queue
    } else {
        queue - COM_PORT_COUNT
    }
}

/// The queue with a number among those of a type, if the number is in range.
pub open spec fn queue_num(queue_type: QueueType, index: i16) -> Option<int> {
    let queue = match queue_type {
        QueueType::ComQueue => index as int,
        QueueType::BufferQueue => index + COM_PORT_COUNT,
    };
    if 0 <= queue < TOTAL_PORT_COUNT {
        Some(queue)
    } else {
        None
    }
}

/// The buffer that an entry is sent in. A packet is put in storage that came back, or in
/// new storage.
pub open spec fn outgoing(spare: Option<Seq<u8>>, item: ItemView) -> BufferView {
    match item {
        Item::Packet(data) => {
            let storage = match spare {
                Some(storage) => storage,
                None => Seq::new(COM_BUFFER_MAX_SIZE as nat, |i: int| 0u8),
            };
            BufferView::whole(storage, NO_CONTEXT).overwritten(data)
        },
        Item::Buffer(buffer) => buffer,
    }
}

/// The context that a buffer is sent with: what it carries, by its packet descriptor, and
/// the queue that it comes from.
pub open spec fn outgoing_context(buffer: BufferView, queue: int) -> FrameContext {
    FrameContext {
        apid: Apid::of_code(bytes::u16_at(buffer.bytes(), 0)),
        com_queue_index: queue as i16,
        ..FrameContext::initial()
    }
}

/// The buffers given back when a queue is emptied.
pub open spec fn handed_back(queue: int, items: Seq<ItemView>) -> Seq<ActionView> {
    if queue < COM_PORT_COUNT {
        Seq::empty()
    } else {
        Seq::new(
            items.len(),
            |k: int|
                Action::BufferReturnOut {
                    port: port_of(queue) as usize,
                    buffer: match items[k] {
                        Item::Buffer(buffer) => buffer,
                        Item::Packet(_) => BufferView::empty(),
                    },
                },
        )
    }
}

/// The high-water marks of the queues from `from` up to `to`, within thirty-two bits.
pub open spec fn marks(queues: Seq<QueueView<ItemView>>, from: int, to: int) -> Seq<u32> {
    Seq::new((to - from) as nat, |i: int| (queues[from + i].high_water % 0x1_0000_0000) as u32)
}

/// What a flush command asks for: the queue type and the number of the queue.
pub struct FlushArgs {
    /// What the queue holds.
    pub queue_type: QueueType,
    /// Its number among the queues of that type.
    pub index: i16,
}

/// What a priority command asks for.
pub struct PriorityArgs {
    /// What the queue holds.
    pub queue_type: QueueType,
    /// Its number among the queues of that type.
    pub index: i16,
    /// Its new priority.
    pub priority: i16,
}

/// The queue that arguments begin with, or how the command is answered where they do not
/// fit.
pub open spec fn queue_args(args: Seq<u8>) -> Result<FlushArgs, CmdResponse> {
    match bytes::u8_read(args, 0) {
        Err(_) => Err(CmdResponse::FormatError),
        Ok(raw) => match QueueType::of_code(raw) {
            None => Err(CmdResponse::ValidationError),
            Some(queue_type) => match bytes::u16_read(args, 1) {
                Err(_) => Err(CmdResponse::FormatError),
                Ok(index) => Ok(FlushArgs { queue_type, index: bytes::signed16(index) }),
            },
        },
    }
}

/// The arguments of a flush command, or how it is answered where they do not fit.
pub open spec fn flush_args(args: Seq<u8>) -> Result<FlushArgs, CmdResponse> {
    match queue_args(args) {
        Ok(a) => if args.len() != 3 {
            Err(CmdResponse::FormatError)
        } else {
            Ok(a)
        },
        Err(response) => Err(response),
    }
}

/// The arguments of a priority command, or how it is answered where they do not fit.
pub open spec fn priority_args(args: Seq<u8>) -> Result<PriorityArgs, CmdResponse> {
    match queue_args(args) {
        Ok(a) => match bytes::u16_read(args, 3) {
            Err(_) => Err(CmdResponse::FormatError),
            Ok(priority) => if args.len() != 5 {
                Err(CmdResponse::FormatError)
            } else {
                Ok(
                    PriorityArgs {
                        queue_type: a.queue_type,
                        index: a.index,
                        priority: bytes::signed16(priority),
                    },
                )
            },
        },
        Err(response) => Err(response),
    }
}

/// Whether a command empties queues.
pub open spec fn flushes(id_base: u32, op_code: u32, args: Seq<u8>) -> bool {
    let local = counter::offset_from(op_code, id_base);
    if local == types::OPCODE_FLUSH_QUEUE {
        flush_args(args) is Ok && queue_num(
            flush_args(args)->Ok_0.queue_type,
            flush_args(args)->Ok_0.index,
        ) is Some
    } else {
        local == types::OPCODE_FLUSH_ALL_QUEUES && args.len() == 0
    }
}

/// A state with the outputs that led to it.
#[verifier::ext_equal]
pub struct Trace {
    /// The state.
    pub state: QueuesState,
    /// The outputs so far.
    pub out: Seq<ActionView>,
}

impl Trace {
    /// One more output.
    pub open spec fn emit(self, action: ActionView) -> Trace {
        Trace { out: self.out.push(action), ..self }
    }

    /// A command is answered.
    pub open spec fn answer(self, op_code: u32, cmd_seq: u32, response: CmdResponse) -> Trace {
        self.emit(Action::CmdResponse { op_code, cmd_seq, response })
    }

    /// The next entry in the order of service, if any, is sent.
    pub open spec fn send_next(self) -> Trace {
        let place = self.state.next_place();
        if place < self.state.order.len() {
            let queue = self.state.order[place].index as int;
            let item = self.state.queues[queue].next();
            let buffer = outgoing(self.state.spare, item);
            Trace {
                state: QueuesState {
                    queues: self.state.queues.update(queue, self.state.queues[queue].dequeued()),
                    order: served(self.state.order, place),
                    throttle: self.state.throttle.update(queue, false),
                    send_state: SendState::Waiting,
                    outstanding: true,
                    spare: if item is Packet {
                        None
                    } else {
                        self.state.spare
                    },
                    ..self.state
                },
                out: self.out.push(
                    Action::DataOut { buffer, context: outgoing_context(buffer, queue) },
                ),
            }
        } else {
            self
        }
    }

    /// The lower layer reports on the last send.
    pub open spec fn com_status(self, condition: Success) -> Trace {
        if condition == Success::Success {
            Trace {
                state: QueuesState { send_state: SendState::Ready, ..self.state },
                ..self
            }.send_next()
        } else {
            self
        }
    }

    /// Where an entry put in a queue would displace the oldest, that one goes back to its
    /// sender.
    pub open spec fn make_room(self, queue: int) -> Trace {
        let before = self.state.queues[queue];
        if before.discards() {
            Trace { out: self.out + handed_back(queue, before.items.take(1)), ..self }
        } else {
            self
        }
    }

    /// An entry is put in a queue; an overflow is reported unless it has been already.
    pub open spec fn store(self, queue: int, item: ItemView) -> Trace {
        let stored = QueuesState {
            queues: self.state.queues.update(queue, self.state.queues[queue].enqueued(item)),
            ..self.state
        };
        if self.state.queues[queue].full() && !self.state.throttle[queue] {
            Trace {
                state: QueuesState { throttle: stored.throttle.update(queue, true), ..stored },
                ..self
            }.emit(
                Action::Event(
                    ComQueueEvent::QueueOverflow {
                        queue_type: type_of(queue),
                        index: port_of(queue) as i16,
                    },
                ),
            )
        } else {
            Trace { state: stored, ..self }
        }
    }

    /// An entry is put in a queue, and sent at once where something may be sent.
    pub open spec fn enqueue(self, queue: int, item: ItemView) -> Trace {
        if self.state.send_state == SendState::Ready {
            self.store(queue, item).send_next()
        } else {
            self.store(queue, item)
        }
    }

    /// A packet comes in.
    pub open spec fn packet_in(self, port: int, data: Seq<u8>) -> Trace {
        self.enqueue(port, Item::Packet(data))
    }

    /// A buffer comes in. Where the oldest buffer gives way it goes back to its sender
    /// first; where the new one does, it goes back last.
    pub open spec fn buffer_in(self, port: int, buffer: BufferView) -> Trace {
        let queue = port + COM_PORT_COUNT;
        let taken = self.make_room(queue).enqueue(queue, Item::Buffer(buffer));
        if self.state.queues[queue].refuses() {
            taken.emit(Action::BufferReturnOut { port: port as usize, buffer })
        } else {
            taken
        }
    }

    /// How full the queues have been is written to telemetry, and forgotten.
    pub open spec fn run(self) -> Trace {
        let queues = self.state.queues;
        Trace {
            state: QueuesState {
                queues: Seq::new(queues.len(), |i: int| queues[i].unmarked()),
                ..self.state
            },
            ..self
        }.emit(
            Action::Tlm {
                id: types::CHANID_COM_QUEUE_DEPTH,
                value: types::depths_wire(marks(queues, 0, COM_PORT_COUNT as int)),
            },
        ).emit(
            Action::Tlm {
                id: types::CHANID_BUFF_QUEUE_DEPTH,
                value: types::depths_wire(
                    marks(queues, COM_PORT_COUNT as int, TOTAL_PORT_COUNT as int),
                ),
            },
        )
    }

    /// A sent buffer comes back. One that came in as a buffer goes back to its sender; of
    /// a packet the storage is kept.
    pub open spec fn data_return(self, buffer: BufferView, context: FrameContext) -> Trace {
        let back = QueuesState { outstanding: false, ..self.state };
        if context.com_queue_index >= COM_PORT_COUNT {
            Trace { state: back, ..self }.emit(
                Action::BufferReturnOut {
                    port: port_of(context.com_queue_index as int) as usize,
                    buffer,
                },
            )
        } else {
            Trace { state: QueuesState { spare: Some(buffer.storage), ..back }, ..self }
        }
    }

    /// A queue is emptied; its buffers go back to their senders.
    pub open spec fn flush(self, queue: int) -> Trace {
        let before = self.state.queues[queue];
        Trace {
            state: QueuesState {
                queues: self.state.queues.update(
                    queue,
                    QueueView { items: Seq::empty(), ..before },
                ),
                ..self.state
            },
            out: self.out + handed_back(queue, before.departures()),
        }
    }

    /// The first `n` queues are emptied.
    pub open spec fn flush_first(self, n: nat) -> Trace
        decreases n,
    {
        if n == 0 {
            self
        } else {
            self.flush_first((n - 1) as nat).flush(n - 1)
        }
    }

    /// A queue gets another priority.
    pub open spec fn set_priority(self, queue: int, priority: i16) -> Trace {
        let place = place_of(self.state.order, queue, 0);
        if place < self.state.order.len() {
            Trace {
                state: QueuesState {
                    order: reprioritized(self.state.order, place, priority),
                    ..self.state
                },
                ..self
            }
        } else {
            self
        }
    }

    /// The command to empty one queue.
    pub open spec fn flush_queue(self, op_code: u32, cmd_seq: u32, args: Seq<u8>) -> Trace {
        match flush_args(args) {
            Err(response) => self.answer(op_code, cmd_seq, response),
            Ok(a) => match queue_num(a.queue_type, a.index) {
                None => self.answer(op_code, cmd_seq, CmdResponse::ValidationError),
                Some(queue) => self.flush(queue).answer(op_code, cmd_seq, CmdResponse::OK),
            },
        }
    }

    /// The command to empty all queues.
    pub open spec fn flush_all_queues(self, op_code: u32, cmd_seq: u32, args: Seq<u8>) -> Trace {
        if args.len() != 0 {
            self.answer(op_code, cmd_seq, CmdResponse::FormatError)
        } else {
            self.flush_first(TOTAL_PORT_COUNT as nat).answer(op_code, cmd_seq, CmdResponse::OK)
        }
    }

    /// The command to change the priority of a queue.
    pub open spec fn set_queue_priority(self, op_code: u32, cmd_seq: u32, args: Seq<u8>) -> Trace {
        match priority_args(args) {
            Err(response) => self.answer(op_code, cmd_seq, response),
            Ok(a) => match queue_num(a.queue_type, a.index) {
                None => self.answer(op_code, cmd_seq, CmdResponse::ValidationError),
                Some(queue) => if 0 <= a.priority < TOTAL_PORT_COUNT {
                    self.set_priority(queue, a.priority).emit(
                        Action::Event(
                            ComQueueEvent::QueuePriorityChanged {
                                queue_type: a.queue_type,
                                index: a.index,
                                priority: a.priority,
                            },
                        ),
                    ).answer(op_code, cmd_seq, CmdResponse::OK)
                } else {
                    self.answer(op_code, cmd_seq, CmdResponse::ValidationError)
                },
            },
        }
    }

    /// A command comes in.
    pub open spec fn command(self, op_code: u32, cmd_seq: u32, args: Seq<u8>) -> Trace {
        let local = counter::offset_from(op_code, self.state.id_base);
        if local == types::OPCODE_FLUSH_QUEUE {
            self.flush_queue(op_code, cmd_seq, args)
        } else if local == types::OPCODE_FLUSH_ALL_QUEUES {
            self.flush_all_queues(op_code, cmd_seq, args)
        } else if local == types::OPCODE_SET_QUEUE_PRIORITY {
            self.set_queue_priority(op_code, cmd_seq, args)
        } else {
            self.answer(op_code, cmd_seq, CmdResponse::InvalidOpcode)
        }
    }
}

/// The first place that waits, as a fact about all places.
pub proof fn lemma_first_waiting(
    order: Seq<QueueMetadata>,
    queues: Seq<QueueView<ItemView>>,
    from: int,
)
    requires
        0 <= from <= order.len(),
    ensures
        ({
            let r = first_waiting(order, queues, from);
            &&& from <= r <= order.len()
            &&& forall|i: int|
                from <= i < r ==> queues[(#[trigger] order[i]).index as int].items.len() == 0
            &&& r < order.len() ==> queues[order[r].index as int].items.len() > 0
        }),
    decreases order.len() - from,
{
    if from < order.len() && queues[order[from].index as int].items.len() == 0 {
        lemma_first_waiting(order, queues, from + 1);
    }
}

/// The first place above a priority, as a fact about all places.
pub proof fn lemma_first_above(order: Seq<QueueMetadata>, priority: int, from: int)
    requires
        0 <= from <= order.len(),
    ensures
        ({
            let r = first_above(order, priority, from);
            &&& from <= r <= order.len()
            &&& forall|i: int| from <= i < r ==> (#[trigger] order[i]).priority <= priority
            &&& r < order.len() ==> order[r].priority > priority
        }),
    decreases order.len() - from,
{
    if from < order.len() && order[from].priority <= priority {
        lemma_first_above(order, priority, from + 1);
    }
}

/// The place of a queue, as a fact about all places.
pub proof fn lemma_place_of(order: Seq<QueueMetadata>, queue: int, from: int)
    requires
        0 <= from <= order.len(),
    ensures
        ({
            let r = place_of(order, queue, from);
            &&& from <= r <= order.len()
            &&& forall|i: int| from <= i < r ==> (#[trigger] order[i]).index != queue
            &&& r < order.len() ==> order[r].index == queue
        }),
    decreases order.len() - from,
{
    if from < order.len() && order[from].index != queue {
        lemma_place_of(order, queue, from + 1);
    }
}

/// Taking an entry out of an order and putting it back where its priority belongs leaves
/// the order sorted and its queues distinct.
pub proof fn lemma_moved(
    order: Seq<QueueMetadata>,
    place: int,
    priority: i16,
    at: int,
    n: nat,
)
    requires
        sorted(order),
        distinct(order, n),
        0 <= place < order.len(),
        0 <= at < order.len(),
        forall|i: int| 0 <= i < at ==> (#[trigger] order.remove(place)[i]).priority <= priority,
        forall|i: int|
            at <= i < order.len() - 1 ==> (#[trigger] order.remove(place)[i]).priority >= priority,
    ensures
        ({
            let moved = order.remove(place).insert(
                at,
                QueueMetadata { priority, ..order[place] },
            );
            &&& sorted(moved)
            &&& distinct(moved, n)
            &&& moved.len() == order.len()
        }),
{
    let others = order.remove(place);
    let moved = others.insert(at, QueueMetadata { priority, ..order[place] });
    assert forall|i: int, j: int| 0 <= i < j < moved.len() implies (#[trigger] moved[i]).priority
        <= (#[trigger] moved[j]).priority by {
        let a = if i < at { i } else { i - 1 };
        let b = if j < at { j } else { j - 1 };
        if i != at && j != at {
            assert(moved[i] == others[a] && moved[j] == others[b]);
        } else if i == at {
            assert(moved[j] == others[b]);
        } else {
            assert(moved[i] == others[a]);
        }
    }
    assert forall|i: int| 0 <= i < moved.len() implies (#[trigger] moved[i]).index < n by {
        let a = if i < at { i } else { i - 1 };
        if i != at {
            assert(moved[i] == others[a]);
            assert(others[a] == order[if a < place { a } else { a + 1 }]);
        }
    }
    assert forall|i: int, j: int| 0 <= i < j < moved.len() implies (#[trigger] moved[i]).index != (
    #[trigger] moved[j]).index by {
        let a = if i < at { i } else { i - 1 };
        let b = if j < at { j } else { j - 1 };
        if i != at && j != at {
            assert(others[a] == order[if a < place { a } else { a + 1 }]);
            assert(others[b] == order[if b < place { b } else { b + 1 }]);
        } else if i == at {
            assert(others[b] == order[if b < place { b } else { b + 1 }]);
        } else {
            assert(others[a] == order[if a < place { a } else { a + 1 }]);
        }
    }
}

/// Serving a queue leaves a good order of service.
pub proof fn lemma_served(order: Seq<QueueMetadata>, place: int, n: nat)
    requires
        sorted(order),
        distinct(order, n),
        0 <= place < order.len(),
    ensures
        sorted(served(order, place)),
        distinct(served(order, place), n),
        served(order, place).len() == order.len(),
        forall|i: int|
            0 <= i < order.len() ==> exists|j: int|
                0 <= j < order.len() && #[trigger] served(order, place)[i] == order[j],
{
    let others = order.remove(place);
    let priority = order[place].priority;
    lemma_first_above(others, priority as int, 0);
    let at = first_above(others, priority as int, 0);
    assert forall|i: int| at <= i < order.len() - 1 implies (
    #[trigger] others[i]).priority >= priority by {
        if i > at {
            assert(others[at] == order[if at < place { at } else { at + 1 }]);
            assert(others[i] == order[if i < place { i } else { i + 1 }]);
        }
    }
    lemma_moved(order, place, priority, at, n);
    assert forall|i: int| 0 <= i < order.len() implies exists|j: int|
        0 <= j < order.len() && #[trigger] served(order, place)[i] == order[j] by {
        if i == at {
            assert(served(order, place)[i] == order[place]);
        } else {
            let a = if i < at { i } else { i - 1 };
            let j = if a < place { a } else { a + 1 };
            assert(served(order, place)[i] == order[j]);
        }
    }
}

/// Changing a priority leaves a good order of service.
pub proof fn lemma_reprioritized(order: Seq<QueueMetadata>, place: int, priority: i16, n: nat)
    requires
        sorted(order),
        distinct(order, n),
        0 <= place < order.len(),
    ensures
        sorted(reprioritized(order, place, priority)),
        distinct(reprioritized(order, place, priority), n),
        reprioritized(order, place, priority).len() == order.len(),
        forall|i: int|
            0 <= i < order.len() ==> {
                ||| (#[trigger] reprioritized(order, place, priority)[i]).priority == priority
                ||| exists|j: int|
                    0 <= j < order.len() && reprioritized(order, place, priority)[i] == #[trigger] order[j]
            },
{
    let others = order.remove(place);
    let old_priority = order[place].priority;
    let limit = if priority > old_priority {
        priority - 1
    } else {
        priority as int
    };
    lemma_first_above(others, limit, 0);
    let at = if priority == old_priority {
        place
    } else {
        first_above(others, limit, 0)
    };
    assert forall|i: int| 0 <= i < at implies (#[trigger] others[i]).priority <= priority by {
        assert(others[i] == order[if i < place { i } else { i + 1 }]);
    }
    assert forall|i: int| at <= i < order.len() - 1 implies (
    #[trigger] others[i]).priority >= priority by {
        assert(others[i] == order[if i < place { i } else { i + 1 }]);
        if i > at && priority != old_priority {
            assert(others[at] == order[if at < place { at } else { at + 1 }]);
        }
    }
    lemma_moved(order, place, priority, at, n);
    let moved = reprioritized(order, place, priority);
    assert forall|i: int| 0 <= i < order.len() && moved[i].priority != priority implies exists|
        j: int,
    |
        0 <= j < order.len() && #[trigger] moved[i] == #[trigger] order[j] by {
        let a = if i < at { i } else { i - 1 };
        let j = if a < place { a } else { a + 1 };
        assert(moved[i] == order[j]);
    }
}

} // verus!
