//! What holds of the downlink queues over a whole run.
use vstd::prelude::*;

use super::component;
use super::laws;
use super::model;
use super::model::{ActionView, ItemView, QueueMetadata, QueuesState, SendState, Trace};
use super::types;
use super::types::{Action, Item, COM_PORT_COUNT, TOTAL_PORT_COUNT};
use crate::fw::buffer::BufferView;
use crate::fw::counter;
use crate::fw::types::{FrameContext, Success};

verus! {

/// What can come in once the queues have been set up.
pub enum Input {
    /// The lower layer reports on the last send.
    Status { condition: Success },
    /// A packet.
    Packet { port: int, data: Seq<u8> },
    /// A buffer.
    Buffer { port: int, buffer: BufferView },
    /// A tick of the scheduler.
    Tick,
    /// A sent buffer comes back.
    Back { buffer: BufferView, context: FrameContext },
    /// A command.
    Command { op_code: u32, cmd_seq: u32, args: Seq<u8> },
}

/// Whether an input can be taken.
pub open spec fn takes(s: QueuesState, input: Input) -> bool {
    match input {
        Input::Status { condition } => s.takes_status(condition),
        Input::Packet { port, data } => s.takes_packet(port, data),
        Input::Buffer { port, buffer } => s.takes_buffer(port, buffer),
        Input::Tick => s.configured(),
        Input::Back { context, .. } => s.takes_return(context),
        Input::Command { op_code, args, .. } => s.takes_command(op_code, args),
    }
}

/// Whether an input is a command to change a priority.
pub open spec fn sets_priority(id_base: u32, input: Input) -> bool {
    match input {
        Input::Command { op_code, .. } => counter::offset_from(op_code, id_base)
            == types::OPCODE_SET_QUEUE_PRIORITY,
        _ => false,
    }
}

/// An input comes in.
pub open spec fn step(t: Trace, input: Input) -> Trace {
    match input {
        Input::Status { condition } => t.com_status(condition),
        Input::Packet { port, data } => t.packet_in(port, data),
        Input::Buffer { port, buffer } => t.buffer_in(port, buffer),
        Input::Tick => t.run(),
        Input::Back { buffer, context } => t.data_return(buffer, context),
        Input::Command { op_code, cmd_seq, args } => t.command(op_code, cmd_seq, args),
    }
}

/// How a run stands after its first `n` inputs.
pub open spec fn moment(t: Trace, inputs: Seq<Input>, n: nat) -> Trace
    decreases n,
{
    if n == 0 {
        t
    } else {
        step(moment(t, inputs, (n - 1) as nat), inputs[n - 1])
    }
}

/// Whether an output sends something from a queue.
pub open spec fn from_queue(queue: int) -> spec_fn(ActionView) -> bool {
    |a: ActionView|
        match a {
            Action::DataOut { context, .. } => context.com_queue_index == queue,
            _ => false,
        }
}

/// How many of the outputs send something from a queue.
pub open spec fn sent_from(out: Seq<ActionView>, queue: int) -> nat {
    laws::count(out, from_queue(queue))
}

/// Whether a run serves a queue with the input after its first `n`.
pub open spec fn serves(t: Trace, inputs: Seq<Input>, n: nat, queue: int) -> bool {
    sent_from(moment(t, inputs, n + 1).out, queue) > sent_from(moment(t, inputs, n).out, queue)
}

/// The priority of a queue.
pub open spec fn priority_of(order: Seq<QueueMetadata>, queue: int) -> i16 {
    order[model::place_of(order, queue, 0)].priority
}

/// Whether a queue comes before another in the order of service.
spec fn ahead(order: Seq<QueueMetadata>, first: int, second: int) -> bool {
    model::place_of(order, first, 0) < model::place_of(order, second, 0)
}

/// Whether every queue has one place, and places follow the priorities.
spec fn orderly(s: QueuesState) -> bool {
    &&& s.configured()
    &&& s.order.len() == TOTAL_PORT_COUNT
    &&& model::sorted(s.order)
    &&& model::distinct(s.order, TOTAL_PORT_COUNT as nat)
}

/// The place of a queue is the one place that is its own.
proof fn lemma_place(order: Seq<QueueMetadata>, queue: int, place: int)
    requires
        model::distinct(order, TOTAL_PORT_COUNT as nat),
        0 <= place < order.len(),
        order[place].index == queue,
    ensures
        model::place_of(order, queue, 0) == place,
{
    model::lemma_place_of(order, queue, 0);
    let r = model::place_of(order, queue, 0);
    if r < place {
        assert(order[r].index != order[place].index);
    }
}

/// Every queue has a place.
proof fn lemma_has_place(order: Seq<QueueMetadata>, queue: int)
    requires
        model::distinct(order, TOTAL_PORT_COUNT as nat),
        order.len() == TOTAL_PORT_COUNT,
        0 <= queue < TOTAL_PORT_COUNT,
    ensures
        0 <= model::place_of(order, queue, 0) < order.len(),
        order[model::place_of(order, queue, 0)].index == queue,
{
    component::lemma_all_places(order, queue);
    let i = choose|i: int| 0 <= i < TOTAL_PORT_COUNT && (#[trigger] order[i]).index == queue;
    lemma_place(order, queue, i);
}

/// Where queues stand after one was served: the others keep their order, and the one that
/// was served comes behind those of its priority.
proof fn lemma_served_places(order: Seq<QueueMetadata>, place: int, queue: int)
    requires
        model::sorted(order),
        model::distinct(order, TOTAL_PORT_COUNT as nat),
        order.len() == TOTAL_PORT_COUNT,
        0 <= place < order.len(),
        0 <= queue < TOTAL_PORT_COUNT,
    ensures
        ({
            let after = model::served(order, place);
            let at = model::first_above(order.remove(place), order[place].priority as int, 0);
            let was = model::place_of(order, queue, 0);
            let is = model::place_of(after, queue, 0);
            &&& priority_of(after, queue) == priority_of(order, queue)
            &&& was == place ==> is == at
            &&& was < place ==> is == was
            &&& place < was <= at ==> is == was - 1
            &&& at < was ==> is == was
            &&& place <= at < order.len()
            &&& forall|i: int| at < i < order.len() ==> (#[trigger] order[i]).priority
                > order[place].priority
        }),
{
    let after = model::served(order, place);
    let others = order.remove(place);
    let at = model::first_above(others, order[place].priority as int, 0);
    let was = model::place_of(order, queue, 0);
    lemma_has_place(order, queue);
    model::lemma_served(order, place, TOTAL_PORT_COUNT as nat);
    laws::law_round_robin(order, place);
    let k = if was < place {
        was
    } else {
        was - 1
    };
    let is = if was == place {
        at
    } else if k < at {
        k
    } else {
        k + 1
    };
    assert(after[is] == order[was]);
    lemma_place(after, queue, is);
    assert forall|i: int| at < i < order.len() implies (#[trigger] order[i]).priority
        > order[place].priority by {
        assert(after[i] == order[i]);
    }
}

/// One more output that sends counts for its queue alone.
proof fn lemma_sent_push(out: Seq<ActionView>, a: ActionView, queue: int)
    ensures
        sent_from(out.push(a), queue) == sent_from(out, queue) + (if from_queue(queue)(a) {
            1nat
        } else {
            0nat
        }),
{
    laws::lemma_count_push(out, a, from_queue(queue));
}

/// What a step leaves of the order of two queues of one priority.
spec fn turn(t: Trace, r: Trace, a: int, b: int) -> bool {
    &&& orderly(r.state)
    &&& priority_of(r.state.order, a) == priority_of(t.state.order, a)
    &&& priority_of(r.state.order, b) == priority_of(t.state.order, b)
    &&& sent_from(r.out, a) >= sent_from(t.out, a)
    &&& sent_from(r.out, b) >= sent_from(t.out, b)
    &&& sent_from(r.out, a) > sent_from(t.out, a) ==> {
        &&& ahead(r.state.order, b, a)
        &&& ahead(t.state.order, b, a) ==> r.state.queues[b].items.len() == 0
    }
    &&& sent_from(r.out, b) == sent_from(t.out, b) && ahead(t.state.order, b, a) ==> ahead(
        r.state.order,
        b,
        a,
    )
}

/// Sending keeps queues of one priority taking turns.
proof fn lemma_send_turn(t: Trace, a: int, b: int)
    requires
        orderly(t.state),
        0 <= a < TOTAL_PORT_COUNT,
        0 <= b < TOTAL_PORT_COUNT,
        a != b,
        priority_of(t.state.order, a) == priority_of(t.state.order, b),
    ensures
        turn(t, t.send_next(), a, b),
{
    let s = t.state;
    let p = s.next_place();
    let r = t.send_next();
    model::lemma_first_waiting(s.order, s.queues, 0);
    lemma_has_place(s.order, a);
    lemma_has_place(s.order, b);
    if p < s.order.len() {
        model::lemma_served(s.order, p, TOTAL_PORT_COUNT as nat);
        lemma_served_places(s.order, p, a);
        lemma_served_places(s.order, p, b);
        lemma_sent_push(t.out, r.out.last(), a);
        lemma_sent_push(t.out, r.out.last(), b);
        assert(r.out =~= t.out.push(r.out.last()));
    }
}

/// Storing an entry sends nothing and leaves the order alone.
proof fn lemma_store_turn(t: Trace, queue: int, item: ItemView, q: int)
    requires
        t.state.configured(),
        0 <= queue < TOTAL_PORT_COUNT,
    ensures
        t.store(queue, item).state.order == t.state.order,
        t.store(queue, item).state.configured(),
        sent_from(t.store(queue, item).out, q) == sent_from(t.out, q),
{
    let r = t.store(queue, item);
    if r.out.len() > t.out.len() {
        lemma_sent_push(t.out, r.out.last(), q);
        assert(r.out =~= t.out.push(r.out.last()));
    }
}

/// Giving back what a queue held sends nothing.
proof fn lemma_handed_back_turn(
    out: Seq<ActionView>,
    queue: int,
    items: Seq<ItemView>,
    q: int,
)
    ensures
        sent_from(out + model::handed_back(queue, items), q) == sent_from(out, q),
{
    laws::lemma_count_add(out, model::handed_back(queue, items), from_queue(q), false);
}

/// Entries that come in keep queues of one priority taking turns.
proof fn lemma_enqueue_turn(t: Trace, queue: int, item: ItemView, a: int, b: int)
    requires
        orderly(t.state),
        0 <= queue < TOTAL_PORT_COUNT,
        0 <= a < TOTAL_PORT_COUNT,
        0 <= b < TOTAL_PORT_COUNT,
        a != b,
        priority_of(t.state.order, a) == priority_of(t.state.order, b),
    ensures
        turn(t, t.enqueue(queue, item), a, b),
{
    lemma_store_turn(t, queue, item, a);
    lemma_store_turn(t, queue, item, b);
    lemma_send_turn(t.store(queue, item), a, b);
}

/// Emptying queues sends nothing and leaves the order alone.
proof fn lemma_flush_turn(t: Trace, n: nat, q: int)
    requires
        t.state.configured(),
        n <= TOTAL_PORT_COUNT,
    ensures
        t.flush_first(n).state.order == t.state.order,
        t.flush_first(n).state.configured(),
        sent_from(t.flush_first(n).out, q) == sent_from(t.out, q),
    decreases n,
{
    if n > 0 {
        let before = t.flush_first((n - 1) as nat);
        lemma_flush_turn(t, (n - 1) as nat, q);
        lemma_handed_back_turn(
            before.out,
            n - 1,
            before.state.queues[n - 1].departures(),
            q,
        );
    }
}

/// A command that changes no priority sends nothing and leaves the order alone.
proof fn lemma_command_turn(t: Trace, op_code: u32, cmd_seq: u32, args: Seq<u8>, q: int)
    requires
        t.state.configured(),
        counter::offset_from(op_code, t.state.id_base) != types::OPCODE_SET_QUEUE_PRIORITY,
    ensures
        t.command(op_code, cmd_seq, args).state.order == t.state.order,
        t.command(op_code, cmd_seq, args).state.configured(),
        sent_from(t.command(op_code, cmd_seq, args).out, q) == sent_from(t.out, q),
{
    let r = t.command(op_code, cmd_seq, args);
    let local = counter::offset_from(op_code, t.state.id_base);
    let worked = if local == types::OPCODE_FLUSH_QUEUE && model::flush_args(args) is Ok
        && model::queue_num(
        model::flush_args(args)->Ok_0.queue_type,
        model::flush_args(args)->Ok_0.index,
    ) is Some {
        let queue = model::queue_num(
            model::flush_args(args)->Ok_0.queue_type,
            model::flush_args(args)->Ok_0.index,
        )->0;
        lemma_handed_back_turn(t.out, queue, t.state.queues[queue].departures(), q);
        t.flush(queue)
    } else if local == types::OPCODE_FLUSH_ALL_QUEUES && args.len() == 0 {
        lemma_flush_turn(t, TOTAL_PORT_COUNT as nat, q);
        t.flush_first(TOTAL_PORT_COUNT as nat)
    } else {
        t
    };
    lemma_sent_push(worked.out, r.out.last(), q);
    assert(r.out =~= worked.out.push(r.out.last()));
}

/// Whatever comes in, queues of one priority keep taking turns.
proof fn lemma_step_turn(t: Trace, input: Input, a: int, b: int)
    requires
        orderly(t.state),
        takes(t.state, input),
        !sets_priority(t.state.id_base, input),
        0 <= a < TOTAL_PORT_COUNT,
        0 <= b < TOTAL_PORT_COUNT,
        a != b,
        priority_of(t.state.order, a) == priority_of(t.state.order, b),
    ensures
        turn(t, step(t, input), a, b),
        step(t, input).state.id_base == t.state.id_base,
{
    let r = step(t, input);
    match input {
        Input::Status { condition } => {
            lemma_send_turn(
                Trace { state: QueuesState { send_state: SendState::Ready, ..t.state }, ..t },
                a,
                b,
            );
        },
        Input::Packet { port, data } => {
            lemma_enqueue_turn(t, port, Item::Packet(data), a, b);
        },
        Input::Buffer { port, buffer } => {
            let queue = port + COM_PORT_COUNT;
            let room = t.make_room(queue);
            let taken = room.enqueue(queue, Item::Buffer(buffer));
            let old = t.state.queues[queue].items.take(1);
            lemma_handed_back_turn(t.out, queue, old, a);
            lemma_handed_back_turn(t.out, queue, old, b);
            lemma_enqueue_turn(room, queue, Item::Buffer(buffer), a, b);
            if t.state.queues[queue].refuses() {
                lemma_sent_push(taken.out, r.out.last(), a);
                lemma_sent_push(taken.out, r.out.last(), b);
                assert(r.out =~= taken.out.push(r.out.last()));
            }
        },
        Input::Tick => {
            let first = r.out[t.out.len() as int];
            lemma_sent_push(t.out, first, a);
            lemma_sent_push(t.out, first, b);
            lemma_sent_push(t.out.push(first), r.out.last(), a);
            lemma_sent_push(t.out.push(first), r.out.last(), b);
            assert(r.out =~= t.out.push(first).push(r.out.last()));
        },
        Input::Back { buffer, context } => {
            if r.out.len() > t.out.len() {
                lemma_sent_push(t.out, r.out.last(), a);
                lemma_sent_push(t.out, r.out.last(), b);
                assert(r.out =~= t.out.push(r.out.last()));
            }
        },
        Input::Command { op_code, cmd_seq, args } => {
            lemma_command_turn(t, op_code, cmd_seq, args, a);
            lemma_command_turn(t, op_code, cmd_seq, args, b);
            lemma_command_base(t, op_code, cmd_seq, args);
        },
    }
}

/// A command leaves the base of the identifiers alone.
proof fn lemma_command_base(t: Trace, op_code: u32, cmd_seq: u32, args: Seq<u8>)
    ensures
        t.command(op_code, cmd_seq, args).state.id_base == t.state.id_base,
{
    reveal_with_fuel(Trace::flush_first, 4);
}

/// A run keeps the queues in order, and the priorities as they are.
proof fn lemma_run_order(t: Trace, inputs: Seq<Input>, n: nat, a: int, b: int)
    requires
        orderly(t.state),
        n <= inputs.len(),
        forall|k: nat|
            k < inputs.len() ==> takes(
                (#[trigger] moment(t, inputs, k)).state,
                inputs[k as int],
            ) && !sets_priority(t.state.id_base, inputs[k as int]),
        0 <= a < TOTAL_PORT_COUNT,
        0 <= b < TOTAL_PORT_COUNT,
        a != b,
        priority_of(t.state.order, a) == priority_of(t.state.order, b),
    ensures
        orderly(moment(t, inputs, n).state),
        moment(t, inputs, n).state.id_base == t.state.id_base,
        priority_of(moment(t, inputs, n).state.order, a) == priority_of(t.state.order, a),
        priority_of(moment(t, inputs, n).state.order, b) == priority_of(t.state.order, b),
    decreases n,
{
    if n > 0 {
        let k = (n - 1) as nat;
        lemma_run_order(t, inputs, k, a, b);
        lemma_step_turn(moment(t, inputs, k), inputs[k as int], a, b);
    }
}

/// After a queue was served, another of its priority stays ahead of it until that one is
/// served.
proof fn lemma_run_turn(t: Trace, inputs: Seq<Input>, i: nat, n: nat, a: int, b: int)
    requires
        orderly(t.state),
        i < n <= inputs.len(),
        forall|k: nat|
            k < inputs.len() ==> takes(
                (#[trigger] moment(t, inputs, k)).state,
                inputs[k as int],
            ) && !sets_priority(t.state.id_base, inputs[k as int]),
        0 <= a < TOTAL_PORT_COUNT,
        0 <= b < TOTAL_PORT_COUNT,
        a != b,
        priority_of(t.state.order, a) == priority_of(t.state.order, b),
        serves(t, inputs, i, a),
    ensures
        ({
            let first = moment(t, inputs, i + 1);
            let now = moment(t, inputs, n);
            &&& sent_from(now.out, b) >= sent_from(first.out, b)
            &&& sent_from(now.out, b) > sent_from(first.out, b) || ahead(now.state.order, b, a)
        }),
    decreases n,
{
    let k = (n - 1) as nat;
    lemma_run_order(t, inputs, k, a, b);
    lemma_step_turn(moment(t, inputs, k), inputs[k as int], a, b);
    if n > i + 1 {
        lemma_run_turn(t, inputs, i, k, a, b);
    }
}

/// Queues of one priority take turns over a whole run. Whatever comes in, unless it is a
/// command to change a priority: between two sends from one queue, another queue of its
/// priority was served, or that one is empty at the second send.
pub proof fn law_queues_take_turns(
    t: Trace,
    inputs: Seq<Input>,
    i: nat,
    j: nat,
    a: int,
    b: int,
)
    requires
        t.state.valid(),
        t.state.configured(),
        forall|k: nat|
            k < inputs.len() ==> takes(
                (#[trigger] moment(t, inputs, k)).state,
                inputs[k as int],
            ) && !sets_priority(t.state.id_base, inputs[k as int]),
        0 <= a < TOTAL_PORT_COUNT,
        0 <= b < TOTAL_PORT_COUNT,
        a != b,
        priority_of(t.state.order, a) == priority_of(t.state.order, b),
        i < j < inputs.len(),
        serves(t, inputs, i, a),
        serves(t, inputs, j, a),
    ensures
        ({
            ||| sent_from(moment(t, inputs, j).out, b) > sent_from(
                moment(t, inputs, i + 1).out,
                b,
            )
            ||| moment(t, inputs, j + 1).state.queues[b].items.len() == 0
        }),
{
    lemma_run_turn(t, inputs, i, j, a, b);
    lemma_run_order(t, inputs, j, a, b);
    lemma_step_turn(moment(t, inputs, j), inputs[j as int], a, b);
}

} // verus!
