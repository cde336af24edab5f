//! What holds of the downlink queues as a whole.
use vstd::prelude::*;

use super::component;
use super::model;
use super::model::{ActionView, ItemView, QueueMetadata, QueuesState, SendState, Trace};
use super::types::{Action, QueueConfigurationEntry, COM_PORT_COUNT, TOTAL_PORT_COUNT};
use crate::fw::buffer::BufferView;
use crate::fw::types::{FrameContext, Success};

verus! {

/// How many of the outputs satisfy a condition.
pub open spec fn count(out: Seq<ActionView>, f: spec_fn(ActionView) -> bool) -> nat
    decreases out.len(),
{
    if out.len() == 0 {
        0
    } else {
        count(out.drop_last(), f) + (if f(out.last()) {
            1nat
        } else {
            0nat
        })
    }
}

/// How many buffers the outputs send.
pub open spec fn sends(out: Seq<ActionView>) -> nat {
    count(out, |a: ActionView| a is DataOut)
}

/// How many command responses the outputs hold.
pub open spec fn answers(out: Seq<ActionView>) -> nat {
    count(out, |a: ActionView| a is CmdResponse)
}

/// How many buffers that came in as buffers the outputs hand out: sent, or given back.
pub open spec fn hands_out(a: ActionView) -> bool {
    match a {
        Action::DataOut { context, .. } => context.com_queue_index >= COM_PORT_COUNT,
        Action::BufferReturnOut { .. } => true,
        _ => false,
    }
}

/// How many buffers wait in the buffer queues, or have been handed out.
pub open spec fn accounted_for(t: Trace) -> nat {
    waiting_buffers(t.state.queues, COM_PORT_COUNT as int) + count(
        t.out,
        |a: ActionView| hands_out(a),
    )
}

/// How many entries wait in the queues from `from` on.
pub open spec fn waiting_buffers(
    queues: Seq<crate::fw::queue::QueueView<ItemView>>,
    from: int,
) -> nat
    decreases queues.len() - from,
{
    if from >= queues.len() {
        0
    } else {
        queues[from].items.len() + waiting_buffers(queues, from + 1)
    }
}

/// One more output counts for one or nothing.
pub(crate) proof fn lemma_count_push(out: Seq<ActionView>, a: ActionView, f: spec_fn(ActionView) -> bool)
    ensures
        count(out.push(a), f) == count(out, f) + (if f(a) {
            1nat
        } else {
            0nat
        }),
{
    assert(out.push(a).drop_last() =~= out);
}

/// Further outputs that are all alike count all or not at all.
pub(crate) proof fn lemma_count_add(
    out: Seq<ActionView>,
    more: Seq<ActionView>,
    f: spec_fn(ActionView) -> bool,
    each: bool,
)
    requires
        forall|i: int| 0 <= i < more.len() ==> f(#[trigger] more[i]) == each,
    ensures
        count(out + more, f) == count(out, f) + (if each {
            more.len()
        } else {
            0
        }),
    decreases more.len(),
{
    if more.len() == 0 {
        assert(out + more =~= out);
    } else {
        lemma_count_add(out, more.drop_last(), f, each);
        assert((out + more).drop_last() =~= out + more.drop_last());
        assert((out + more).last() == more.last());
    }
}

/// What waits in one queue counts once.
proof fn lemma_waiting_update(
    queues: Seq<crate::fw::queue::QueueView<ItemView>>,
    q: int,
    v: crate::fw::queue::QueueView<ItemView>,
    from: int,
)
    requires
        0 <= q < queues.len(),
        0 <= from,
    ensures
        waiting_buffers(queues.update(q, v), from) == waiting_buffers(queues, from) + (if q >= from {
            v.items.len() - queues[q].items.len()
        } else {
            0
        }),
    decreases queues.len() - from,
{
    if from < queues.len() {
        lemma_waiting_update(queues, q, v, from + 1);
    }
}

/// A success releases exactly one buffer where something waits. Where nothing does, the
/// next entry that comes in is sent at once. A failure sends nothing.
pub proof fn law_success_releases_one(t: Trace, condition: Success)
    requires
        t.state.valid(),
        t.state.takes_status(condition),
    ensures
        condition == Success::Failure ==> t.com_status(condition) == t,
        condition == Success::Success && !t.state.drained() ==> {
            &&& sends(t.com_status(condition).out) == sends(t.out) + 1
            &&& t.com_status(condition).out.len() == t.out.len() + 1
            &&& t.com_status(condition).state.send_state == SendState::Waiting
            &&& t.com_status(condition).state.outstanding
        },
        condition == Success::Success && t.state.drained() ==> {
            &&& t.com_status(condition).out == t.out
            &&& t.com_status(condition).state.send_state == SendState::Ready
        },
{
    let s = t.state;
    model::lemma_first_waiting(s.order, s.queues, 0);
    if condition == Success::Success {
        let p = s.next_place();
        let ready = QueuesState { send_state: SendState::Ready, ..s };
        assert(ready.next_place() == p);
        if p < s.order.len() {
            let q = s.order[p].index as int;
            assert(s.queues[q].items.len() > 0);
            lemma_count_push(
                t.out,
                t.com_status(condition).out.last(),
                |a: ActionView| a is DataOut,
            );
            assert(t.com_status(condition).out =~= t.out.push(t.com_status(condition).out.last()));
        } else {
            assert forall|q: int| 0 <= q < s.queues.len() implies (
            #[trigger] s.queues[q]).items.len() == 0 by {
                component::lemma_all_places(s.order, q);
            }
        }
    }
}

/// While a send has not been answered for, nothing is sent, whatever comes in.
pub proof fn law_nothing_is_sent_while_waiting(
    t: Trace,
    port: int,
    data: Seq<u8>,
    buffer: BufferView,
)
    requires
        t.state.valid(),
        t.state.configured(),
        t.state.send_state == SendState::Waiting,
    ensures
        0 <= port < COM_PORT_COUNT ==> sends(t.packet_in(port, data).out) == sends(t.out),
        0 <= port < TOTAL_PORT_COUNT - COM_PORT_COUNT ==> sends(t.buffer_in(port, buffer).out)
            == sends(t.out),
{
    let f = |a: ActionView| a is DataOut;
    if 0 <= port < COM_PORT_COUNT {
        let r = t.packet_in(port, data);
        if r.out.len() > t.out.len() {
            lemma_count_push(t.out, r.out.last(), f);
            assert(r.out =~= t.out.push(r.out.last()));
        }
    }
    if 0 <= port < TOTAL_PORT_COUNT - COM_PORT_COUNT {
        let q = port + COM_PORT_COUNT;
        let room = t.make_room(q);
        let back = model::handed_back(q, t.state.queues[q].items.take(1));
        lemma_count_add(t.out, back, f, false);
        let taken = room.enqueue(q, crate::com_queue::types::Item::Buffer(buffer));
        if taken.out.len() > room.out.len() {
            lemma_count_push(room.out, taken.out.last(), f);
            assert(taken.out =~= room.out.push(taken.out.last()));
        }
        let r = t.buffer_in(port, buffer);
        if r.out.len() > taken.out.len() {
            lemma_count_push(taken.out, r.out.last(), f);
            assert(r.out =~= taken.out.push(r.out.last()));
        }
    }
}

/// What is sent next comes from a queue whose priority number no queue with anything in it
/// goes below.
pub proof fn law_most_urgent_first(s: QueuesState, i: int)
    requires
        s.sound(),
        0 <= i < s.order.len(),
        s.queues[s.order[i].index as int].items.len() > 0,
    ensures
        s.next_place() <= i,
        s.queues[s.order[s.next_place()].index as int].items.len() > 0,
        s.order[s.next_place()].priority <= s.order[i].priority,
{
    model::lemma_first_waiting(s.order, s.queues, 0);
}

/// Queues of one priority take turns: the queue just served comes behind all others of its
/// priority, and the others keep their order.
pub proof fn law_round_robin(order: Seq<QueueMetadata>, place: int)
    requires
        model::sorted(order),
        model::distinct(order, TOTAL_PORT_COUNT as nat),
        0 <= place < order.len(),
    ensures
        ({
            let after = model::served(order, place);
            let others = order.remove(place);
            let at = model::first_above(others, order[place].priority as int, 0);
            &&& place <= at < after.len() == order.len()
            &&& after[at] == order[place]
            &&& after.remove(at) == others
            &&& forall|i: int| at < i < after.len() ==> (#[trigger] after[i]).priority
                > order[place].priority
        }),
{
    let others = order.remove(place);
    let priority = order[place].priority as int;
    let after = model::served(order, place);
    let at = model::first_above(others, priority, 0);
    model::lemma_first_above(others, priority, 0);
    if at < place {
        assert(others[at] == order[at]);
    }
    assert(after.remove(at) =~= others);
    assert forall|i: int| at < i < after.len() implies (#[trigger] after[i]).priority
        > order[place].priority by {
        assert(after[i] == others[i - 1]);
        assert(others[at] == order[at + 1]);
        assert(others[i - 1] == order[i]);
    }
}

/// Changing a priority keeps the order of service sorted and moves no other queue past
/// another.
pub proof fn law_priority_change(order: Seq<QueueMetadata>, place: int, priority: i16)
    requires
        model::sorted(order),
        model::distinct(order, TOTAL_PORT_COUNT as nat),
        0 <= place < order.len(),
    ensures
        model::sorted(model::reprioritized(order, place, priority)),
        model::distinct(model::reprioritized(order, place, priority), TOTAL_PORT_COUNT as nat),
        exists|at: int|
            {
                &&& 0 <= at < order.len()
                &&& (#[trigger] model::reprioritized(order, place, priority)[at]).index
                    == order[place].index
                &&& model::reprioritized(order, place, priority)[at].priority == priority
                &&& model::reprioritized(order, place, priority).remove(at) == order.remove(place)
            },
        priority == order[place].priority ==> model::reprioritized(order, place, priority)
            == order,
{
    model::lemma_reprioritized(order, place, priority, TOTAL_PORT_COUNT as nat);
    let others = order.remove(place);
    let limit = if priority > order[place].priority {
        priority - 1
    } else {
        priority as int
    };
    model::lemma_first_above(others, limit, 0);
    let at = if priority == order[place].priority {
        place
    } else {
        model::first_above(others, limit, 0)
    };
    assert(model::reprioritized(order, place, priority) == others.insert(
        at,
        QueueMetadata { priority, ..order[place] },
    ));
    assert(model::reprioritized(order, place, priority)[at].index == order[place].index);
    assert(model::reprioritized(order, place, priority).remove(at) =~= others);
    if priority == order[place].priority {
        assert(others.insert(place, order[place]) =~= order);
    }
}

/// A configuration lists its queues in one order only.
pub proof fn law_configuration_order(
    a: Seq<QueueMetadata>,
    b: Seq<QueueMetadata>,
    entries: Seq<QueueConfigurationEntry>,
)
    requires
        entries.len() == TOTAL_PORT_COUNT,
        model::lists(a, entries),
        model::lists(b, entries),
    ensures
        a == b,
{
    assert forall|k: int| 0 <= k < a.len() implies a[k] == b[k] by {
        lemma_same_place(a, b, entries, k);
    }
    assert(a =~= b);
}

proof fn lemma_same_place(
    a: Seq<QueueMetadata>,
    b: Seq<QueueMetadata>,
    entries: Seq<QueueConfigurationEntry>,
    k: int,
)
    requires
        entries.len() == TOTAL_PORT_COUNT,
        model::lists(a, entries),
        model::lists(b, entries),
        0 <= k < a.len(),
    ensures
        forall|i: int| 0 <= i <= k ==> #[trigger] a[i] == b[i],
    decreases k,
{
    if k > 0 {
        lemma_same_place(a, b, entries, k - 1);
    }
    component::lemma_all_places(a, b[k].index as int);
    component::lemma_all_places(b, a[k].index as int);
    let i = choose|i: int| 0 <= i < TOTAL_PORT_COUNT && (#[trigger] a[i]).index == b[k].index;
    let j = choose|j: int| 0 <= j < TOTAL_PORT_COUNT && (#[trigger] b[j]).index == a[k].index;
    if i < k {
        assert(a[i] == b[i]);
    }
    if j < k {
        assert(a[j] == b[j]);
    }
    assert(i >= k && j >= k);
    if i > k && j > k {
        assert(a[k].priority <= a[i].priority && b[k].priority <= b[j].priority);
    }
}

/// An overflow of a queue is reported once, and again only after the queue has sent
/// something.
pub proof fn law_overflow_is_reported_once(t: Trace, queue: int, item: ItemView)
    requires
        t.state.sound(),
        t.state.configured(),
        0 <= queue < TOTAL_PORT_COUNT,
    ensures
        t.store(queue, item).out.len() == t.out.len() + (if t.state.queues[queue].full()
            && !t.state.throttle[queue] {
            1int
        } else {
            0int
        }),
        t.store(queue, item).state.throttle[queue] == (t.state.throttle[queue]
            || t.state.queues[queue].full()),
        t.state.next_place() < t.state.order.len() ==> !t.send_next().state.throttle[t.state.order[t.state.next_place()].index as int],
        forall|q: int|
            0 <= q < TOTAL_PORT_COUNT && t.state.next_place() < t.state.order.len() && q
                != t.state.order[t.state.next_place()].index
                ==> #[trigger] t.send_next().state.throttle[q] == t.state.throttle[q],
{
    model::lemma_first_waiting(t.state.order, t.state.queues, 0);
}

/// Emptying all queues leaves nothing to send, and gives back as many buffers as waited.
pub proof fn law_flush_empties(t: Trace)
    requires
        t.state.sound(),
        t.state.configured(),
    ensures
        t.flush_first(TOTAL_PORT_COUNT as nat).state.drained(),
        t.flush_first(TOTAL_PORT_COUNT as nat).state.next_place()
            == t.flush_first(TOTAL_PORT_COUNT as nat).state.order.len(),
        accounted_for(t.flush_first(TOTAL_PORT_COUNT as nat)) == accounted_for(t),
{
    reveal_with_fuel(Trace::flush_first, 4);
    let one = t.flush(0);
    let two = one.flush(1);
    let three = two.flush(2);
    assert(t.flush_first(3) == three);
    lemma_flush_accounts(t, 0);
    lemma_flush_accounts(one, 1);
    lemma_flush_accounts(two, 2);
    model::lemma_first_waiting(three.state.order, three.state.queues, 0);
    assert(three.state.queues[0].items.len() == 0);
    assert(three.state.queues[1].items.len() == 0);
    assert(three.state.queues[2].items.len() == 0);
    assert(three.state.order == t.state.order);
    let p = three.state.next_place();
    if p < three.state.order.len() {
        assert(three.state.order[p].index < TOTAL_PORT_COUNT);
    }
}

proof fn lemma_flush_accounts(t: Trace, queue: int)
    requires
        t.state.configured(),
        0 <= queue < TOTAL_PORT_COUNT,
    ensures
        accounted_for(t.flush(queue)) == accounted_for(t),
{
    let before = t.state.queues[queue];
    let back = model::handed_back(queue, before.departures());
    lemma_count_add(t.out, back, |a: ActionView| hands_out(a), true);
    lemma_waiting_update(
        t.state.queues,
        queue,
        t.flush(queue).state.queues[queue],
        COM_PORT_COUNT as int,
    );
}

proof fn lemma_send_accounts(t: Trace)
    requires
        t.state.sound(),
    ensures
        accounted_for(t.send_next()) == accounted_for(t),
{
    let s = t.state;
    model::lemma_first_waiting(s.order, s.queues, 0);
    let p = s.next_place();
    if p < s.order.len() {
        let q = s.order[p].index as int;
        lemma_waiting_update(s.queues, q, s.queues[q].dequeued(), COM_PORT_COUNT as int);
        let r = t.send_next();
        lemma_count_push(t.out, r.out.last(), |a: ActionView| hands_out(a));
        assert(r.out =~= t.out.push(r.out.last()));
    }
}

/// No buffer is lost: every buffer that came in waits in its queue, has been sent, or has
/// been given back. One that comes in adds one to their number; a packet, a report on a
/// send and an emptied queue change nothing.
pub proof fn law_no_buffer_is_lost(
    t: Trace,
    port: int,
    data: Seq<u8>,
    buffer: BufferView,
    condition: Success,
    queue: int,
)
    requires
        t.state.valid(),
        t.state.configured(),
        buffer.wf(),
        data.len() <= crate::fw::envelope::COM_BUFFER_MAX_SIZE,
        0 <= queue < TOTAL_PORT_COUNT,
    ensures
        0 <= port < TOTAL_PORT_COUNT - COM_PORT_COUNT ==> accounted_for(t.buffer_in(port, buffer))
            == accounted_for(t) + 1,
        0 <= port < COM_PORT_COUNT ==> accounted_for(t.packet_in(port, data)) == accounted_for(t),
        accounted_for(t.com_status(condition)) == accounted_for(t),
        accounted_for(t.flush(queue)) == accounted_for(t),
{
    lemma_flush_accounts(t, queue);
    lemma_send_accounts(t);
    let ready = Trace { state: QueuesState { send_state: SendState::Ready, ..t.state }, ..t };
    lemma_send_accounts(ready);
    assert(accounted_for(ready) == accounted_for(t));
    if 0 <= port < COM_PORT_COUNT {
        lemma_store_accounts(t, port, super::types::Item::Packet(data));
    }
    if 0 <= port < TOTAL_PORT_COUNT - COM_PORT_COUNT {
        let q = port + COM_PORT_COUNT;
        let item = super::types::Item::Buffer(buffer);
        let room = t.make_room(q);
        lemma_count_add(
            t.out,
            model::handed_back(q, t.state.queues[q].items.take(1)),
            |a: ActionView| hands_out(a),
            true,
        );
        lemma_store_accounts(room, q, item);
        let taken = room.enqueue(q, item);
        let r = t.buffer_in(port, buffer);
        if t.state.queues[q].refuses() {
            lemma_count_push(taken.out, r.out.last(), |a: ActionView| hands_out(a));
            assert(r.out =~= taken.out.push(r.out.last()));
        }
    }
}

/// Putting an entry in a queue adds as many entries as the queue grows by.
proof fn lemma_store_accounts(t: Trace, queue: int, item: ItemView)
    requires
        t.state.valid(),
        t.state.configured(),
        0 <= queue < TOTAL_PORT_COUNT,
        model::fits(queue, item),
    ensures
        accounted_for(t.enqueue(queue, item)) == accounted_for(t) + (if queue >= COM_PORT_COUNT {
            t.state.queues[queue].enqueued(item).items.len() - t.state.queues[queue].items.len()
        } else {
            0
        }),
{
    let stored = t.store(queue, item);
    lemma_waiting_update(
        t.state.queues,
        queue,
        t.state.queues[queue].enqueued(item),
        COM_PORT_COUNT as int,
    );
    if stored.out.len() > t.out.len() {
        lemma_count_push(t.out, stored.out.last(), |a: ActionView| hands_out(a));
        assert(stored.out =~= t.out.push(stored.out.last()));
    }
    assert(stored.state.sound()) by {
        let before = t.state.queues[queue];
        crate::fw::queue::law_queue_stays_within_depth(before, item);
        assert forall|i: int, k: int|
            0 <= i < stored.state.queues.len() && 0 <= k < stored.state.queues[i].items.len() implies model::fits(
            i,
            #[trigger] stored.state.queues[i].items[k],
        ) by {
            if i == queue {
                let e = before.enqueued(item).items;
                assert(e[k] == item || e[k] == before.items[k] || e[k] == before.items[k + 1]);
            } else {
                assert(model::fits(i, t.state.queues[i].items[k]));
            }
        }
    }
    lemma_send_accounts(stored);
}

/// A buffer that comes back from being sent goes to its sender, and a packet's storage is
/// kept: then nothing is on its way any more.
pub proof fn law_return_ends_the_send(t: Trace, buffer: BufferView, context: FrameContext)
    requires
        t.state.valid(),
        t.state.takes_return(context),
    ensures
        !t.data_return(buffer, context).state.outstanding,
        t.data_return(buffer, context).state.valid(),
        context.com_queue_index >= COM_PORT_COUNT ==> t.data_return(buffer, context).out
            == t.out.push(
            Action::BufferReturnOut {
                port: (context.com_queue_index - COM_PORT_COUNT) as usize,
                buffer,
            },
        ),
        context.com_queue_index < COM_PORT_COUNT ==> {
            &&& t.data_return(buffer, context).out == t.out
            &&& t.data_return(buffer, context).state.spare == Some(buffer.storage)
        },
{
}

/// Every command is answered exactly once, and the answer is the last thing it leads to.
pub proof fn law_every_command_is_answered_once(
    t: Trace,
    op_code: u32,
    cmd_seq: u32,
    args: Seq<u8>,
)
    requires
        t.state.valid(),
        t.state.takes_command(op_code, args),
    ensures
        answers(t.command(op_code, cmd_seq, args).out) == answers(t.out) + 1,
        t.command(op_code, cmd_seq, args).out.last() is CmdResponse,
        t.command(op_code, cmd_seq, args).out.last()->CmdResponse_op_code == op_code,
        t.command(op_code, cmd_seq, args).out.last()->CmdResponse_cmd_seq == cmd_seq,
{
    let f = |a: ActionView| a is CmdResponse;
    let r = t.command(op_code, cmd_seq, args);
    assert(r.out =~= r.out.drop_last().push(r.out.last()));
    lemma_count_push(r.out.drop_last(), r.out.last(), f);
    let rest = r.out.drop_last();
    if rest.len() > t.out.len() || model::flushes(t.state.id_base, op_code, args) {
        let local = crate::fw::counter::offset_from(op_code, t.state.id_base);
        if local == super::types::OPCODE_FLUSH_QUEUE {
            let a = model::flush_args(args)->Ok_0;
            let q = model::queue_num(a.queue_type, a.index)->0;
            assert(rest =~= t.flush(q).out);
            lemma_count_add(
                t.out,
                model::handed_back(q, t.state.queues[q].departures()),
                f,
                false,
            );
        } else if local == super::types::OPCODE_FLUSH_ALL_QUEUES {
            assert(rest =~= t.flush_first(TOTAL_PORT_COUNT as nat).out);
            lemma_flush_first_answers(t, TOTAL_PORT_COUNT as nat);
        } else {
            lemma_count_push(t.out, rest.last(), f);
            assert(rest =~= t.out.push(rest.last()));
        }
    } else {
        assert(rest =~= t.out);
    }
}

proof fn lemma_flush_first_answers(t: Trace, n: nat)
    requires
        n <= TOTAL_PORT_COUNT,
    ensures
        answers(t.flush_first(n).out) == answers(t.out),
    decreases n,
{
    if n > 0 {
        lemma_flush_first_answers(t, (n - 1) as nat);
        let before = t.flush_first((n - 1) as nat);
        lemma_count_add(
            before.out,
            model::handed_back(n - 1, before.state.queues[n - 1].departures()),
            |a: ActionView| a is CmdResponse,
            false,
        );
    }
}

} // verus!
