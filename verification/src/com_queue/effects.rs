//! What each input does to the downlink queues and what it puts out, and that it does
//! nothing else.
use vstd::prelude::*;

use super::component;
use super::messages::{Content, Message};
use super::model;
use super::model::{ItemView, QueueMetadata, QueuesState, SendState, Trace};
use super::types;
use super::types::{Action, ComQueueEvent, Item, QueueType};
use crate::fw::buffer;
use crate::fw::buffer::BufferView;
use crate::fw::bytes;
use crate::fw::counter;
use crate::fw::queue;
use crate::fw::queue::{QueueMode, QueueOverflowMode, QueueView};
use crate::fw::types::{Apid, CmdResponse, FrameContext, Pvn, Success};

verus! {

broadcast use crate::fw::bytes::lemma_be32_len;

/// The bytes of an entry: those of a packet, or those that a buffer shows.
pub open spec fn shown(item: ItemView) -> Seq<u8> {
    match item {
        Item::Packet(data) => data,
        Item::Buffer(b) => b.storage.subrange(b.offset as int, (b.offset + b.size) as int),
    }
}

/// Whether a queue is the one that is served next: it holds something, and no queue with
/// an earlier place does.
pub open spec fn served_next(s: QueuesState, place: int) -> bool {
    &&& 0 <= place < s.order.len()
    &&& s.queues[s.order[place].index as int].items.len() > 0
    &&& forall|i: int|
        0 <= i < place ==> s.queues[(#[trigger] s.order[i]).index as int].items.len() == 0
}

proof fn lemma_served_next(s: QueuesState, place: int)
    requires
        s.sound(),
        served_next(s, place),
    ensures
        s.next_place() == place,
{
    model::lemma_first_waiting(s.order, s.queues, 0);
}

/// What is sent shows exactly the bytes of the entry that leaves its queue, in whatever
/// storage: a packet goes out in the storage that came back, or in new storage, and a
/// buffer as it is. The context names what the first two bytes say that it carries and the
/// queue that it comes from, and nothing more.
pub proof fn law_entry_goes_out_as_it_is(t: Trace, place: int)
    requires
        t.state.sound(),
        t.state.can_send(),
        served_next(t.state, place),
    ensures
        ({
            let s = t.state;
            let after = t.send_next();
            let q = s.order[place].index as int;
            let entry = if s.queues[q].mode == QueueMode::Fifo {
                s.queues[q].items[0]
            } else {
                s.queues[q].items[s.queues[q].items.len() - 1]
            };
            let data = shown(entry);
            let n = t.out.len() as int;
            &&& after.out.len() == n + 1
            &&& after.out.take(n) == t.out
            &&& after.out[n] matches Action::DataOut { buffer, context }
            &&& buffer.offset + buffer.size <= buffer.storage.len()
            &&& buffer.storage.subrange(
                buffer.offset as int,
                (buffer.offset + buffer.size) as int,
            ) == data
            &&& context == (FrameContext {
                com_queue_index: q as i16,
                apid: Apid::of_code((data[0] * 256 + data[1]) as u16),
                sequence_count: 0,
                vc_id: 1,
                has_sec_hdr: false,
                sequence_flags: 3,
                pvn: Pvn::SpacePacketProtocol,
                sa_index: 0,
                send_now: false,
            })
            &&& entry matches Item::Buffer(b) ==> buffer == b
            &&& entry is Packet ==> {
                &&& buffer.offset == 0
                &&& buffer.context == 0xFFFF_FFFF
                &&& s.spare is Some ==> {
                    &&& buffer.storage.len() == s.spare->0.len()
                    &&& forall|i: int|
                        data.len() <= i < buffer.storage.len() ==> #[trigger] buffer.storage[i]
                            == s.spare->0[i]
                }
                &&& s.spare is None ==> buffer.storage.len() == 512
            }
        }),
{
    let s = t.state;
    lemma_served_next(s, place);
    let q = s.order[place].index as int;
    let entry = s.queues[q].next();
    let after = t.send_next();
    let n = t.out.len() as int;
    assert(after.out.take(n) =~= t.out);
    if entry is Packet {
        let data = entry->Packet_0;
        let storage = match s.spare {
            Some(storage) => storage,
            None => Seq::new(512, |i: int| 0u8),
        };
        assert(model::fits(q, s.queues[q].items[0]));
        assert(model::fits(q, s.queues[q].items[s.queues[q].items.len() - 1]));
        buffer::law_overwritten_shows_data(BufferView::whole(storage, buffer::NO_CONTEXT), data);
    } else {
        assert(model::fits(q, s.queues[q].items[0]));
        assert(model::fits(q, s.queues[q].items[s.queues[q].items.len() - 1]));
    }
    bytes::law_numbers_at(shown(entry), 0);
}

/// A send takes one entry from one queue: the oldest of a first-in first-out queue, the
/// newest of a last-in first-out one. The rest of that queue and all other queues stay as
/// they are. The queue may report an overflow again, and goes behind the others of its
/// priority. From now on a buffer is on its way, and has to be answered for; storage that
/// came back is used up by a packet, and by nothing else.
pub proof fn law_send_takes_one_entry(t: Trace, place: int)
    requires
        t.state.sound(),
        t.state.can_send(),
        served_next(t.state, place),
    ensures
        ({
            let s = t.state;
            let r = t.send_next().state;
            let q = s.order[place].index as int;
            let before = s.queues[q];
            &&& r.queues.len() == s.queues.len()
            &&& forall|i: int|
                0 <= i < s.queues.len() && i != q ==> #[trigger] r.queues[i] == s.queues[i]
            &&& r.queues[q] == (QueueView { items: r.queues[q].items, ..before })
            &&& before.mode == QueueMode::Fifo ==> before.items == seq![before.items[0]]
                + r.queues[q].items
            &&& before.mode == QueueMode::Lifo ==> before.items == r.queues[q].items.push(
                before.items[before.items.len() - 1],
            )
            &&& r.throttle.len() == s.throttle.len()
            &&& !r.throttle[q]
            &&& forall|i: int|
                0 <= i < s.throttle.len() && i != q ==> #[trigger] r.throttle[i] == s.throttle[i]
            &&& r.send_state == SendState::Waiting
            &&& r.outstanding
            &&& r.spare == (if q < 2 {
                None
            } else {
                s.spare
            })
            &&& r.id_base == s.id_base
            &&& r.order.len() == s.order.len()
            &&& exists|at: int|
                0 <= at < r.order.len() && #[trigger] r.order[at] == s.order[place]
                    && r.order.remove(at) == s.order.remove(place) && (forall|i: int|
                    at < i < r.order.len() ==> (#[trigger] r.order[i]).priority
                        > s.order[place].priority) && (forall|i: int|
                    0 <= i < at ==> (#[trigger] r.order[i]).priority <= s.order[place].priority)
        }),
{
    let s = t.state;
    lemma_served_next(s, place);
    let r = t.send_next().state;
    let q = s.order[place].index as int;
    queue::law_dequeued(s.queues[q]);
    assert(model::fits(q, s.queues[q].items[0]));
    assert(model::fits(q, s.queues[q].items[s.queues[q].items.len() - 1]));
    super::laws::law_round_robin(s.order, place);
    let at = model::first_above(s.order.remove(place), s.order[place].priority as int, 0);
    model::lemma_first_above(s.order.remove(place), s.order[place].priority as int, 0);
    assert(r.order[at] == s.order[place]);
    assert forall|i: int| 0 <= i < at implies (#[trigger] r.order[i]).priority
        <= s.order[place].priority by {
        assert(r.order[i] == s.order.remove(place)[i]);
    }
}

/// A report of success lets the next entry go, and where none waits the next that comes in;
/// a report of failure changes nothing.
pub proof fn law_status(t: Trace, condition: Success)
    requires
        t.state.valid(),
        t.state.takes_status(condition),
    ensures
        condition == Success::Failure ==> t.com_status(condition) == t,
        condition == Success::Success ==> t.com_status(condition) == (Trace {
            state: QueuesState { send_state: SendState::Ready, ..t.state },
            ..t
        }).send_next(),
        condition == Success::Success && t.state.drained() ==> t.com_status(condition) == (Trace {
            state: QueuesState { send_state: SendState::Ready, ..t.state },
            ..t
        }),
{
    model::lemma_first_waiting(t.state.order, t.state.queues, 0);
    let ready = QueuesState { send_state: SendState::Ready, ..t.state };
    assert(ready.next_place() == t.state.next_place());
    let p = t.state.next_place();
    if p < t.state.order.len() {
        assert(t.state.order[p].index < 3);
    }
}

/// While a send has not been answered for, a packet that comes in waits in the queue of its
/// port and nothing is sent. A full queue refuses it or gives up its oldest packet, as it is
/// set, and reports the overflow unless it has. All other queues stay as they are.
pub proof fn law_packet_waits(t: Trace, port: int, data: Seq<u8>)
    requires
        t.state.valid(),
        t.state.takes_packet(port, data),
        t.state.send_state == SendState::Waiting,
    ensures
        ({
            let s = t.state;
            let after = t.packet_in(port, data);
            let before = s.queues[port];
            let full = before.items.len() == before.depth;
            let item: ItemView = Item::Packet(data);
            &&& after.state == (QueuesState {
                queues: after.state.queues,
                throttle: after.state.throttle,
                ..s
            })
            &&& after.state.queues.len() == s.queues.len()
            &&& forall|i: int|
                0 <= i < s.queues.len() && i != port ==> #[trigger] after.state.queues[i]
                    == s.queues[i]
            &&& after.state.queues[port].items == if !full {
                before.items.push(item)
            } else if before.overflow_mode == QueueOverflowMode::DropNewest {
                before.items
            } else {
                before.items.subrange(1, before.items.len() as int).push(item)
            }
            &&& after.state.queues[port].depth == before.depth
            &&& after.state.queues[port].mode == before.mode
            &&& after.state.queues[port].overflow_mode == before.overflow_mode
            &&& !full && before.items.len() + 1 > before.high_water ==> {
                after.state.queues[port].high_water == before.items.len() + 1
            }
            &&& !full && before.items.len() + 1 <= before.high_water ==> {
                after.state.queues[port].high_water == before.high_water
            }
            &&& after.state.throttle == s.throttle.update(port, s.throttle[port] || full)
            &&& after.out == if full && !s.throttle[port] {
                t.out.push(
                    Action::Event(
                        ComQueueEvent::QueueOverflow {
                            queue_type: QueueType::ComQueue,
                            index: port as i16,
                        },
                    ),
                )
            } else {
                t.out
            }
        }),
{
    let before = t.state.queues[port];
    queue::law_enqueued(before, Item::Packet(data));
    let after = t.packet_in(port, data);
    assert(before.items.skip(1) =~= before.items.subrange(1, before.items.len() as int));
    assert(after.state.throttle =~= t.state.throttle.update(
        port,
        t.state.throttle[port] || before.items.len() == before.depth,
    ));
}

/// While a send has not been answered for, a buffer that comes in waits in the queue of its
/// port and nothing is sent. A full queue gives the new buffer back, after the overflow was
/// reported, or its oldest one, before it is, as it is set. All other queues stay as they
/// are.
pub proof fn law_buffer_waits(t: Trace, port: int, incoming: BufferView)
    requires
        t.state.valid(),
        t.state.takes_buffer(port, incoming),
        t.state.send_state == SendState::Waiting,
    ensures
        ({
            let s = t.state;
            let after = t.buffer_in(port, incoming);
            let q = port + 2;
            let before = s.queues[q];
            let full = before.items.len() == before.depth;
            let refused = full && before.overflow_mode == QueueOverflowMode::DropNewest;
            let displaced = full && before.overflow_mode == QueueOverflowMode::DropOldest;
            let item: ItemView = Item::Buffer(incoming);
            let first = if displaced {
                seq![
                    Action::BufferReturnOut { port: port as usize, buffer: before.items[0]->Buffer_0 },
                ]
            } else {
                Seq::empty()
            };
            let second = if full && !s.throttle[q] {
                seq![
                    Action::Event(
                        ComQueueEvent::QueueOverflow {
                            queue_type: QueueType::BufferQueue,
                            index: port as i16,
                        },
                    ),
                ]
            } else {
                Seq::empty()
            };
            let third = if refused {
                seq![Action::BufferReturnOut { port: port as usize, buffer: incoming }]
            } else {
                Seq::empty()
            };
            &&& after.state == (QueuesState {
                queues: after.state.queues,
                throttle: after.state.throttle,
                ..s
            })
            &&& after.state.queues.len() == s.queues.len()
            &&& forall|i: int|
                0 <= i < s.queues.len() && i != q ==> #[trigger] after.state.queues[i]
                    == s.queues[i]
            &&& after.state.queues[q].items == if !full {
                before.items.push(item)
            } else if refused {
                before.items
            } else {
                before.items.subrange(1, before.items.len() as int).push(item)
            }
            &&& after.state.queues[q].depth == before.depth
            &&& after.state.queues[q].mode == before.mode
            &&& after.state.queues[q].overflow_mode == before.overflow_mode
            &&& after.state.queues[q].high_water == if !full && before.items.len()
                >= before.high_water {
                before.items.len() + 1
            } else if displaced {
                before.depth
            } else {
                before.high_water
            }
            &&& after.state.throttle == s.throttle.update(q, s.throttle[q] || full)
            &&& after.out == t.out + first + second + third
        }),
{
    let s = t.state;
    let q = port + 2;
    let before = s.queues[q];
    let full = before.items.len() == before.depth;
    queue::law_enqueued(before, Item::Buffer(incoming));
    let after = t.buffer_in(port, incoming);
    assert(before.items.skip(1) =~= before.items.subrange(1, before.items.len() as int));
    assert(after.state.throttle =~= s.throttle.update(q, s.throttle[q] || full));
    let refused = full && before.overflow_mode == QueueOverflowMode::DropNewest;
    let displaced = full && before.overflow_mode == QueueOverflowMode::DropOldest;
    let first = if displaced {
        seq![Action::BufferReturnOut { port: port as usize, buffer: before.items[0]->Buffer_0 }]
    } else {
        Seq::empty()
    };
    let second = if full && !s.throttle[q] {
        seq![
            Action::Event(
                ComQueueEvent::QueueOverflow {
                    queue_type: QueueType::BufferQueue,
                    index: port as i16,
                },
            ),
        ]
    } else {
        Seq::empty()
    };
    let third = if refused {
        seq![Action::BufferReturnOut { port: port as usize, buffer: incoming }]
    } else {
        Seq::empty()
    };
    if displaced {
        assert(model::fits(q, before.items[0]));
    }
    assert(after.out =~= t.out + first + second + third);
}

/// Where something may be sent, a packet or a buffer that comes in is sent at once: its
/// bytes go out, from the queue of its port, and every queue is empty as it was.
pub proof fn law_sent_at_once(t: Trace, port: int, item: ItemView)
    requires
        t.state.valid(),
        t.state.send_state == SendState::Ready,
        item matches Item::Packet(data) ==> t.state.takes_packet(port, data),
        item matches Item::Buffer(b) ==> b.wf() && t.state.takes_buffer(port, b),
    ensures
        ({
            let s = t.state;
            let n = t.out.len() as int;
            let q = if item is Packet {
                port
            } else {
                port + 2
            };
            let after = match item {
                Item::Packet(data) => t.packet_in(port, data),
                Item::Buffer(b) => t.buffer_in(port, b),
            };
            &&& after.out.len() == n + 1
            &&& after.out.take(n) == t.out
            &&& after.out[n] is DataOut
            &&& shown(Item::Buffer(after.out[n]->DataOut_buffer)) == shown(item)
            &&& after.out[n]->DataOut_context.com_queue_index == q
            &&& after.out[n]->DataOut_context.apid == Apid::of_code(
                (shown(item)[0] * 256 + shown(item)[1]) as u16,
            )
            &&& item matches Item::Buffer(b) ==> after.out[n]->DataOut_buffer == b
            &&& after.state.drained()
            &&& after.state.send_state == SendState::Waiting
            &&& after.state.outstanding
            &&& after.state.queues.len() == s.queues.len()
            &&& forall|i: int|
                0 <= i < s.queues.len() && i != q ==> after.state.queues[i]
                    == #[trigger] s.queues[i]
            &&& after.state.spare == if item is Packet {
                None
            } else {
                s.spare
            }
            &&& after.state.throttle == s.throttle.update(q, false)
            &&& after.state.id_base == s.id_base
            &&& after == (Trace {
                state: QueuesState {
                    queues: s.queues.update(
                        q,
                        QueueView {
                            items: seq![item],
                            high_water: if s.queues[q].high_water < 1 {
                                1
                            } else {
                                s.queues[q].high_water
                            },
                            ..s.queues[q]
                        },
                    ),
                    ..s
                },
                out: t.out,
            }).send_next()
        }),
{
    let s = t.state;
    let n = t.out.len() as int;
    let q = if item is Packet {
        port
    } else {
        port + 2
    };
    assert(s.queues[q].items.len() == 0);
    assert(s.queues[q].wf());
    let stored = t.store(q, item);
    component::lemma_only_item(s, stored.state, q, item);
    assert(stored.state.queues[q].items =~= seq![item]);
    assert(stored.state.throttle =~= s.throttle);
    assert(stored.out =~= t.out);
    lemma_stored_is_sound(s, stored.state, q, item);
    let place = stored.state.next_place();
    model::lemma_first_waiting(stored.state.order, stored.state.queues, 0);
    assert(served_next(stored.state, place));
    law_entry_goes_out_as_it_is(stored, place);
    law_send_takes_one_entry(stored, place);
    let after = match item {
        Item::Packet(data) => t.packet_in(port, data),
        Item::Buffer(b) => t.buffer_in(port, b),
    };
    assert(after == stored.send_next());
    queue::law_enqueued(s.queues[q], item);
    assert(stored.state.queues[q] =~= QueueView {
        items: seq![item],
        high_water: if s.queues[q].high_water < 1 {
            1
        } else {
            s.queues[q].high_water
        },
        ..s.queues[q]
    });
    assert(after.state.queues[q].items.len() == 0);
    assert(after.state.throttle =~= s.throttle.update(q, false));
    assert forall|i: int| 0 <= i < s.queues.len() && i != q implies #[trigger] after.state.queues[i]
        == s.queues[i] by {
        assert(stored.state.queues[i] == s.queues[i]);
    }
}

proof fn lemma_stored_is_sound(s: QueuesState, after: QueuesState, q: int, item: ItemView)
    requires
        s.sound(),
        s.drained(),
        s.configured(),
        0 <= q < s.queues.len(),
        model::fits(q, item),
        after == (QueuesState {
            queues: s.queues.update(q, s.queues[q].enqueued(item)),
            ..s
        }),
        after.queues[q].items == seq![item],
    ensures
        after.sound(),
{
    queue::law_queue_stays_within_depth(s.queues[q], item);
    assert forall|i: int, k: int|
        0 <= i < after.queues.len() && 0 <= k < after.queues[i].items.len() implies model::fits(
        i,
        #[trigger] after.queues[i].items[k],
    ) by {
        assert(i == q || after.queues[i] == s.queues[i]);
    }
}

/// A tick writes how full the packet queues have been on one channel and the buffer queue on
/// another, in four bytes each with the most significant first, and starts their marks
/// anew. Nothing leaves a queue, and nothing else changes.
pub proof fn law_tick_writes_marks(t: Trace)
    requires
        t.state.valid(),
        t.state.configured(),
    ensures
        ({
            let s = t.state;
            let after = t.run();
            let n = t.out.len() as int;
            &&& after.state == (QueuesState { queues: after.state.queues, ..s })
            &&& after.state.queues.len() == 3
            &&& forall|i: int|
                0 <= i < 3 ==> #[trigger] after.state.queues[i] == (QueueView {
                    high_water: 0,
                    ..s.queues[i]
                })
            &&& after.out.len() == n + 2
            &&& after.out.take(n) == t.out
            &&& after.out[n] is Tlm
            &&& after.out[n]->Tlm_id == 0
            &&& after.out[n]->Tlm_value.len() == 8
            &&& bytes::u32_at(after.out[n]->Tlm_value, 0) == s.queues[0].high_water % 0x1_0000_0000
            &&& bytes::u32_at(after.out[n]->Tlm_value, 4) == s.queues[1].high_water % 0x1_0000_0000
            &&& after.out[n + 1] is Tlm
            &&& after.out[n + 1]->Tlm_id == 1
            &&& after.out[n + 1]->Tlm_value.len() == 4
            &&& bytes::u32_at(after.out[n + 1]->Tlm_value, 0) == s.queues[2].high_water
                % 0x1_0000_0000
        }),
{
    let s = t.state;
    let after = t.run();
    let n = t.out.len() as int;
    assert(after.out.take(n) =~= t.out);
    reveal_with_fuel(types::depths_wire, 3);
    let marks = model::marks(s.queues, 0, 2);
    assert(marks.drop_last() =~= seq![marks[0]]);
    assert(seq![marks[0]].drop_last() =~= Seq::<u32>::empty());
    let e = Seq::<u8>::empty();
    let value = after.out[n]->Tlm_value;
    assert(value =~= e + bytes::be32(marks[0]) + bytes::be32(marks[1]));
    assert(value =~= bytes::be32(marks[0]) + bytes::be32(marks[1]) + e);
    bytes::law_u32_round_trip(e, marks[0], bytes::be32(marks[1]));
    bytes::law_u32_round_trip(bytes::be32(marks[0]), marks[1], e);
    let last = model::marks(s.queues, 2, 3);
    assert(last.drop_last() =~= Seq::<u32>::empty());
    let second = after.out[n + 1]->Tlm_value;
    assert(second =~= e + bytes::be32(last[0]) + e);
    bytes::law_u32_round_trip(e, last[0], e);
}

/// A buffer that comes back ends the send. What came from the buffer queue goes back to the
/// sender at its port; of anything else the storage is kept for the next packet. Nothing
/// else changes.
pub proof fn law_return(t: Trace, back: BufferView, context: FrameContext)
    requires
        t.state.valid(),
        t.state.takes_return(context),
    ensures
        ({
            let after = t.data_return(back, context);
            &&& after.state == (QueuesState {
                outstanding: false,
                spare: if context.com_queue_index < 2 {
                    Some(back.storage)
                } else {
                    t.state.spare
                },
                ..t.state
            })
            &&& after.out == if context.com_queue_index < 2 {
                t.out
            } else {
                t.out.push(
                    Action::BufferReturnOut {
                        port: (context.com_queue_index - 2) as usize,
                        buffer: back,
                    },
                )
            }
        }),
{
}

/// Emptying a queue leaves nothing in it, and its settings, its mark and every other queue
/// as they are. Its buffers go back to the sender at its port, in the order in which they
/// would have left; packets are just gone.
pub proof fn law_flush_empties_one_queue(t: Trace, q: int)
    requires
        t.state.valid(),
        t.state.configured(),
        0 <= q < 3,
    ensures
        ({
            let s = t.state;
            let after = t.flush(q);
            let n = t.out.len() as int;
            let items = s.queues[q].items;
            &&& after.state == (QueuesState { queues: after.state.queues, ..s })
            &&& after.state.queues.len() == s.queues.len()
            &&& forall|i: int|
                0 <= i < s.queues.len() && i != q ==> #[trigger] after.state.queues[i]
                    == s.queues[i]
            &&& after.state.queues[q].items.len() == 0
            &&& after.state.queues[q].depth == s.queues[q].depth
            &&& after.state.queues[q].mode == s.queues[q].mode
            &&& after.state.queues[q].overflow_mode == s.queues[q].overflow_mode
            &&& after.state.queues[q].high_water == s.queues[q].high_water
            &&& q < 2 ==> after.out == t.out
            &&& q == 2 ==> {
                &&& after.out.len() == n + items.len()
                &&& after.out.take(n) == t.out
                &&& forall|k: int|
                    0 <= k < items.len() ==> #[trigger] after.out[n + k]
                        == Action::<Seq<u8>, BufferView>::BufferReturnOut {
                        port: 0,
                        buffer: (if s.queues[q].mode == QueueMode::Fifo {
                            items[k]
                        } else {
                            items[items.len() - 1 - k]
                        })->Buffer_0,
                    }
            }
        }),
{
    let s = t.state;
    let after = t.flush(q);
    let n = t.out.len() as int;
    let items = s.queues[q].items;
    if q < 2 {
        assert(after.out =~= t.out);
    } else {
        assert(after.out.take(n) =~= t.out);
        assert forall|k: int| 0 <= k < items.len() implies #[trigger] after.out[n + k]
            == Action::<Seq<u8>, BufferView>::BufferReturnOut {
            port: 0,
            buffer: (if s.queues[q].mode == QueueMode::Fifo {
                items[k]
            } else {
                items[items.len() - 1 - k]
            })->Buffer_0,
        } by {
            assert(model::fits(q, s.queues[q].items[k]));
            assert(model::fits(q, s.queues[q].items[items.len() - 1 - k]));
        }
    }
}

/// Giving a queue another priority changes the order of service only: the other queues keep
/// theirs. A queue that becomes more urgent comes behind those that have its new priority,
/// and one that becomes less urgent before them.
pub proof fn law_priority_changes_one_place(t: Trace, place: int, priority: i16)
    requires
        t.state.sound(),
        0 <= place < t.state.order.len(),
    ensures
        ({
            let s = t.state;
            let q = s.order[place].index as int;
            let r = t.set_priority(q, priority);
            &&& r.out == t.out
            &&& r.state == (QueuesState { order: r.state.order, ..s })
            &&& r.state.order.len() == s.order.len()
            &&& exists|at: int|
                0 <= at < s.order.len() && #[trigger] r.state.order[at] == (QueueMetadata {
                    priority,
                    index: s.order[place].index,
                }) && r.state.order.remove(at) == s.order.remove(place) && (priority
                    < s.order[place].priority ==> (forall|i: int|
                    0 <= i < at ==> (#[trigger] r.state.order[i]).priority <= priority) && (forall|
                    i: int,
                |
                    at < i < s.order.len() ==> (#[trigger] r.state.order[i]).priority > priority))
                    && (priority > s.order[place].priority ==> (forall|i: int|
                    0 <= i < at ==> (#[trigger] r.state.order[i]).priority < priority) && (forall|
                    i: int,
                |
                    at < i < s.order.len() ==> (#[trigger] r.state.order[i]).priority >= priority))
                    && (priority == s.order[place].priority ==> at == place)
        }),
{
    let s = t.state;
    let q = s.order[place].index as int;
    let r = t.set_priority(q, priority);
    model::lemma_place_of(s.order, q, 0);
    let found = model::place_of(s.order, q, 0);
    if found < place {
        assert(s.order[found].index != s.order[place].index);
    }
    assert(found == place);
    let others = s.order.remove(place);
    let limit = if priority > s.order[place].priority {
        priority - 1
    } else {
        priority as int
    };
    model::lemma_first_above(others, limit, 0);
    let at = if priority == s.order[place].priority {
        place
    } else {
        model::first_above(others, limit, 0)
    };
    let moved = QueueMetadata { priority, ..s.order[place] };
    assert(r.state.order == others.insert(at, moved));
    assert(r.state.order[at] == moved);
    assert(r.state.order.remove(at) =~= others);
    assert forall|i: int| 0 <= i < at implies #[trigger] r.state.order[i] == others[i] by {}
    assert forall|i: int| at < i < s.order.len() implies #[trigger] r.state.order[i] == others[i
        - 1] && (priority != s.order[place].priority ==> others[i - 1].priority > limit) by {
        if priority != s.order[place].priority {
            lemma_others_sorted(s.order, place, at, i - 1);
        }
    }
}

proof fn lemma_others_sorted(order: Seq<QueueMetadata>, place: int, i: int, j: int)
    requires
        model::sorted(order),
        0 <= place < order.len(),
        0 <= i <= j < order.len() - 1,
    ensures
        order.remove(place)[i].priority <= order.remove(place)[j].priority,
{
    let others = order.remove(place);
    let a = if i < place {
        i
    } else {
        i + 1
    };
    let b = if j < place {
        j
    } else {
        j + 1
    };
    assert(others[i] == order[a]);
    assert(others[j] == order[b]);
    assert(a == b || order[a].priority <= order[b].priority);
}

/// The commands: the opcodes are the three that follow the base. The first empties the queue
/// that its arguments name by a byte for what it holds and two for its number, the second
/// every queue, and the third gives the queue that its arguments name the priority in the
/// two bytes that follow. Arguments that are too short or too long are answered as
/// malformed, and those that name no queue or no priority as invalid; they do nothing.
pub proof fn law_commands(t: Trace, local: u32, cmd_seq: u32, args: Seq<u8>, op_code: u32)
    requires
        t.state.valid(),
        t.state.configured(),
        op_code == (t.state.id_base + local) % 0x1_0000_0000,
    ensures
        ({
            let after = t.command(op_code, cmd_seq, args);
            let number = args[1] * 256 + args[2];
            let named = args[0] == 0 && number < 3 || args[0] == 1 && (number == 0 || number
                >= 0xFFFE);
            let q = if args[0] == 0 {
                number
            } else {
                (number + 2) % 0x1_0000
            };
            let priority = args[3] * 256 + args[4];
            &&& local == 0 && args.len() == 3 && named ==> after == t.flush(q).answer(
                op_code,
                cmd_seq,
                CmdResponse::OK,
            )
            &&& local == 0 && args.len() == 3 && !named ==> after == t.answer(
                op_code,
                cmd_seq,
                CmdResponse::ValidationError,
            )
            &&& local == 0 && args.len() != 3 && (args.len() == 0 || args[0] < 2) ==> after
                == t.answer(op_code, cmd_seq, CmdResponse::FormatError)
            &&& local == 0 && args.len() != 3 && args.len() > 0 && args[0] >= 2 ==> after
                == t.answer(op_code, cmd_seq, CmdResponse::ValidationError)
            &&& local == 1 && args.len() == 0 ==> after == t.flush(0).flush(1).flush(2).answer(
                op_code,
                cmd_seq,
                CmdResponse::OK,
            )
            &&& local == 1 && args.len() != 0 ==> after == t.answer(
                op_code,
                cmd_seq,
                CmdResponse::FormatError,
            )
            &&& local == 2 && args.len() == 5 && named && priority < 3 ==> {
                &&& after.state == t.set_priority(q, priority as i16).state
                &&& after.out.len() == t.out.len() + 2
                &&& after.out.take(t.out.len() as int) == t.out
                &&& after.out[t.out.len() as int] matches Action::Event(
                    ComQueueEvent::QueuePriorityChanged { queue_type, index, priority: new },
                )
                &&& queue_type == if args[0] == 0 {
                    QueueType::ComQueue
                } else {
                    QueueType::BufferQueue
                }
                &&& index as int % 0x1_0000 == number
                &&& new == priority
                &&& after.out.last() == Action::<Seq<u8>, BufferView>::CmdResponse {
                    op_code,
                    cmd_seq,
                    response: CmdResponse::OK,
                }
            }
            &&& local == 2 && args.len() == 5 && !(named && priority < 3) ==> after == t.answer(
                op_code,
                cmd_seq,
                CmdResponse::ValidationError,
            )
            &&& local == 2 && args.len() != 5 && (args.len() == 0 || args[0] < 2) ==> after
                == t.answer(op_code, cmd_seq, CmdResponse::FormatError)
            &&& local == 2 && args.len() != 5 && args.len() > 0 && args[0] >= 2 ==> after
                == t.answer(op_code, cmd_seq, CmdResponse::ValidationError)
            &&& local > 2 ==> after == t.answer(op_code, cmd_seq, CmdResponse::InvalidOpcode)
        }),
{
    counter::law_offset_leads_back(op_code, t.state.id_base);
    assert(counter::offset_from(op_code, t.state.id_base) == local);
    bytes::law_numbers_read(args, 0);
    bytes::law_numbers_read(args, 1);
    bytes::law_numbers_read(args, 3);
    bytes::law_signed_numbers(0, 0, bytes::u16_at(args, 1), 0);
    bytes::law_signed_numbers(0, 0, bytes::u16_at(args, 3), 0);
    reveal_with_fuel(Trace::flush_first, 4);
    let after = t.command(op_code, cmd_seq, args);
    if after.out.len() == t.out.len() + 2 {
        assert(after.out.take(t.out.len() as int) =~= t.out);
    }
}

/// An answer is one output and changes nothing.
pub proof fn law_answer(t: Trace, op_code: u32, cmd_seq: u32, response: CmdResponse)
    ensures
        t.answer(op_code, cmd_seq, response).state == t.state,
        t.answer(op_code, cmd_seq, response).out == t.out.push(
            Action::CmdResponse { op_code, cmd_seq, response },
        ),
{
}

/// Each message does what the input that it stands for does: a report on the last send, a
/// packet or a buffer at its port, a tick, or a command.
pub proof fn law_messages_are_the_inputs(t: Trace, m: Message<Seq<u8>>, claimed: BufferView)
    ensures
        m.content matches Content::ComStatus { condition } ==> t.handle(m, claimed)
            == t.com_status(condition),
        m.content matches Content::ComPacket { data, context } ==> t.handle(m, claimed)
            == t.packet_in(m.port as int, data),
        m.content is BufferIn ==> t.handle(m, claimed) == t.buffer_in(m.port as int, claimed),
        m.content is Run ==> t.handle(m, claimed) == t.run(),
        m.content matches Content::Cmd { op_code, cmd_seq, args } ==> t.handle(m, claimed)
            == t.command(op_code, cmd_seq, args),
{
}

/// At first there are no queues, nothing is on its way, nothing came back, and nothing may
/// be sent before a first report of success.
pub proof fn law_starts_waiting(id_base: u32)
    ensures
        ({
            let s = QueuesState::initial(id_base);
            &&& s.id_base == id_base
            &&& s.queues.len() == 0
            &&& s.order.len() == 0
            &&& s.send_state == SendState::Waiting
            &&& !s.outstanding
            &&& s.spare is None
            &&& s.throttle.len() == 3
            &&& forall|i: int| 0 <= i < 3 ==> !#[trigger] s.throttle[i]
        }),
{
}

/// Each queue that is set up is empty and has the depth and the ways of its entry in the
/// configuration. The order of service starts with the lowest priority number, and among
/// queues with the same one with the first in the configuration.
pub proof fn law_configuration(
    entries: Seq<types::QueueConfigurationEntry>,
    order: Seq<QueueMetadata>,
    i: int,
    j: int,
)
    requires
        model::lists(order, entries),
        0 <= i < j < entries.len(),
    ensures
        model::empty_queues(entries).len() == entries.len(),
        model::empty_queues(entries)[i] == (QueueView::<ItemView> {
            depth: entries[i].depth as nat,
            mode: entries[i].mode,
            overflow_mode: entries[i].overflow_mode,
            items: Seq::empty(),
            high_water: 0,
        }),
        order.len() == entries.len(),
        order[i].index != order[j].index,
        order[i].index < entries.len(),
        order[i].priority == entries[order[i].index as int].priority,
        order[i].priority <= order[j].priority,
        order[i].priority == order[j].priority ==> order[i].index < order[j].index,
{
}

/// What can be sent while nothing is on its way: a packet of two bytes or more, which fits the
/// storage that came back if any did, and a buffer that shows two bytes or more.
pub proof fn law_what_can_be_sent(s: QueuesState, item: ItemView)
    ensures
        s.sendable(item) <==> !s.outstanding && match item {
            Item::Packet(data) => data.len() >= 2 && (s.spare is None || data.len()
                <= s.spare->0.len()),
            Item::Buffer(b) => b.size >= 2,
        },
{
}

/// What can be taken: a report while one is waited for, and one of success only where the entry
/// that is served next can be sent; a packet of at most 512 bytes at one of two ports, or a
/// buffer at the one port, which can be sent where something may be; and a buffer that comes
/// back while one is on its way.
pub proof fn law_what_can_be_taken(
    s: QueuesState,
    condition: Success,
    port: int,
    data: Seq<u8>,
    incoming: BufferView,
    context: FrameContext,
)
    ensures
        s.takes_packet(port, data) <==> s.queues.len() == 3 && 0 <= port < 2 && data.len() <= 512
            && (s.send_state == SendState::Ready ==> s.sendable(Item::Packet(data))),
        s.takes_buffer(port, incoming) <==> s.queues.len() == 3 && port == 0 && (s.send_state
            == SendState::Ready ==> s.sendable(Item::Buffer(incoming))),
        s.takes_return(context) <==> s.outstanding && -32766 <= context.com_queue_index < 3,
        s.takes_status(condition) <==> s.send_state == SendState::Waiting && (condition
            == Success::Success ==> s.can_send()),
{
}

/// The entry that is served next can be sent where it is the next of the first queue, in the
/// order of service, that holds any; and where none does there is nothing that could not be.
pub proof fn law_what_is_served_next(s: QueuesState, place: int)
    requires
        s.sound(),
    ensures
        served_next(s, place) ==> {
            let q = s.queues[s.order[place].index as int];
            let entry = if q.mode == QueueMode::Fifo {
                q.items[0]
            } else {
                q.items[q.items.len() - 1]
            };
            s.can_send() <==> s.sendable(entry)
        },
        s.configured() && s.drained() ==> s.can_send(),
{
    if served_next(s, place) {
        lemma_served_next(s, place);
    }
    model::lemma_first_waiting(s.order, s.queues, 0);
    let p = s.next_place();
    if p < s.order.len() {
        assert(s.order[p].index < 3);
    }
}

} // verus!
