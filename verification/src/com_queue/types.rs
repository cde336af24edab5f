//! Configuration, dictionary and outputs of the downlink queues.
use vstd::prelude::*;

use crate::fw::buffer::{Buffer, BufferView};
use crate::fw::bytes;
use crate::fw::decimal;
use crate::fw::queue::{QueueMode, QueueOverflowMode};
use crate::fw::text;
use crate::fw::types::{CmdResponse, FrameContext, LogSeverity};

verus! {

broadcast use crate::fw::bytes::lemma_be32_len;

/// How many queues hold packets.
pub const COM_PORT_COUNT: usize = 2;

/// How many queues hold buffers.
pub const BUFFER_PORT_COUNT: usize = 1;

/// How many queues there are.
pub const TOTAL_PORT_COUNT: usize = COM_PORT_COUNT + BUFFER_PORT_COUNT;

/// How large a queued message can be: type and port, and a packet with its length and
/// its context.
pub const MSG_SIZE: usize = 524;

/// Empty one queue.
pub const OPCODE_FLUSH_QUEUE: u32 = 0;

/// Empty all queues.
pub const OPCODE_FLUSH_ALL_QUEUES: u32 = 1;

/// Change the priority of a queue.
pub const OPCODE_SET_QUEUE_PRIORITY: u32 = 2;

/// `QueueOverflow`.
pub const EVENTID_QUEUE_OVERFLOW: u32 = 0;

/// `QueuePriorityChanged`.
pub const EVENTID_QUEUE_PRIORITY_CHANGED: u32 = 1;

/// Telemetry channel of how full the packet queues have been.
pub const CHANID_COM_QUEUE_DEPTH: u32 = 0;

/// Telemetry channel of how full the buffer queues have been.
pub const CHANID_BUFF_QUEUE_DEPTH: u32 = 1;

/// What a queue holds.
#[derive(Debug, Clone, Copy, PartialEq, Eq, Structural)]
pub enum QueueType {
    /// Packets.
    ComQueue,
    /// Buffers.
    BufferQueue,
}

impl QueueType {
    /// The number on the wire.
    pub open spec fn code(self) -> u8 {
        match self {
            QueueType::ComQueue => 0,
            QueueType::BufferQueue => 1,
        }
    }

    /// The type that a number stands for, if any.
    pub open spec fn of_code(v: u8) -> Option<QueueType> {
        if v == 0 {
            Some(QueueType::ComQueue)
        } else if v == 1 {
            Some(QueueType::BufferQueue)
        } else {
            None
        }
    }

    /// The number on the wire.
    pub fn as_repr(self) -> (r: u8)
        ensures
            r == self.code(),
    {
        match self {
            QueueType::ComQueue => 0,
            QueueType::BufferQueue => 1,
        }
    }

    /// The type that a number stands for, if any.
    pub fn from_repr(v: u8) -> (r: Option<Self>)
        ensures
            r == QueueType::of_code(v),
    {
        if v == 0 {
            Some(QueueType::ComQueue)
        } else if v == 1 {
            Some(QueueType::BufferQueue)
        } else {
            None
        }
    }
}

impl QueueType {
    /// What a change of priority calls a queue.
    pub open spec fn spec_label(self) -> Seq<char> {
        match self {
            QueueType::ComQueue => "ComQueue"@,
            QueueType::BufferQueue => "BufferQueue"@,
        }
    }

    /// What a change of priority calls a queue.
    pub fn label(&self) -> (r: &'static str)
        ensures
            r@ == self.spec_label(),
    {
        match self {
            QueueType::ComQueue => "ComQueue",
            QueueType::BufferQueue => "BufferQueue",
        }
    }
}

impl QueueType {
    /// What an overflow calls a queue.
    pub open spec fn spec_queue_label(self) -> Seq<char> {
        match self {
            QueueType::ComQueue => "COM_QUEUE"@,
            QueueType::BufferQueue => "BUFFER_QUEUE"@,
        }
    }

    /// What an overflow calls a queue.
    pub fn queue_label(&self) -> (r: &'static str)
        ensures
            r@ == self.spec_queue_label(),
    {
        match self {
            QueueType::ComQueue => "COM_QUEUE",
            QueueType::BufferQueue => "BUFFER_QUEUE",
        }
    }
}

impl Default for QueueType {
    fn default() -> (r: Self)
        ensures
            r == QueueType::ComQueue,
    {
        QueueType::ComQueue
    }
}

/// How one queue is set up.
#[derive(Debug, Clone, Copy, PartialEq, Eq, Structural)]
pub struct QueueConfigurationEntry {
    /// How many entries fit.
    pub depth: u64,
    /// The priority; lower numbers are served first.
    pub priority: i16,
    /// Which entry leaves first.
    pub mode: QueueMode,
    /// Which entry gives way when the queue is full.
    pub overflow_mode: QueueOverflowMode,
}

impl QueueConfigurationEntry {
    /// Whether a queue can be set up this way.
    pub open spec fn valid(self) -> bool {
        &&& 0 <= self.priority < TOTAL_PORT_COUNT
        &&& 0 < self.depth
    }

    /// An entry with nothing set: it has no depth yet.
    pub open spec fn unset() -> QueueConfigurationEntry {
        QueueConfigurationEntry {
            depth: 0,
            priority: 0,
            mode: QueueMode::Fifo,
            overflow_mode: QueueOverflowMode::DropNewest,
        }
    }
}

impl Default for QueueConfigurationEntry {
    fn default() -> (r: Self)
        ensures
            r == QueueConfigurationEntry::unset(),
    {
        QueueConfigurationEntry {
            depth: 0,
            priority: 0,
            mode: QueueMode::Fifo,
            overflow_mode: QueueOverflowMode::DropNewest,
        }
    }
}

/// How all queues are set up, packet queues first.
#[derive(Debug, Clone, Copy)]
pub struct QueueConfigurationTable {
    /// One entry per queue.
    pub entries: [QueueConfigurationEntry; TOTAL_PORT_COUNT],
}

impl QueueConfigurationTable {
    /// Whether every queue can be set up this way.
    pub open spec fn valid(self) -> bool {
        forall|i: int| 0 <= i < TOTAL_PORT_COUNT ==> (#[trigger] self.entries@[i]).valid()
    }

    /// Whether every queue can be set up this way.
    pub fn is_valid(&self) -> (r: bool)
        ensures
            r == self.valid(),
    {
        let mut i: usize = 0;
        while i < TOTAL_PORT_COUNT
            invariant
                i <= TOTAL_PORT_COUNT,
                self.entries@.len() == TOTAL_PORT_COUNT,
                forall|j: int| 0 <= j < i ==> (#[trigger] self.entries@[j]).valid(),
            decreases TOTAL_PORT_COUNT - i,
        {
            let entry: QueueConfigurationEntry = self.entries[i];
            if entry.priority < 0 || entry.priority as usize >= TOTAL_PORT_COUNT || entry.depth == 0 {
                assert(!self.entries@[i as int].valid());
                return false;
            }
            i += 1;
        }
        true
    }
}

impl Default for QueueConfigurationTable {
    fn default() -> (r: Self)
        ensures
            forall|i: int|
                0 <= i < TOTAL_PORT_COUNT ==> #[trigger] r.entries@[i]
                    == QueueConfigurationEntry::unset(),
    {
        QueueConfigurationTable {
            entries: [
                QueueConfigurationEntry::default(),
                QueueConfigurationEntry::default(),
                QueueConfigurationEntry::default(),
            ],
        }
    }
}

/// The numbers of `values`, one after the other.
pub open spec fn depths_wire(values: Seq<u32>) -> Seq<u8>
    decreases values.len(),
{
    if values.len() == 0 {
        Seq::empty()
    } else {
        depths_wire(values.drop_last()) + bytes::be32(values.last())
    }
}

/// Writes numbers one after the other.
fn push_depths(out: &mut Vec<u8>, values: &[u32])
    ensures
        final(out)@ == old(out)@ + depths_wire(values@),
{
    let ghost before = out@;
    let mut i: usize = 0;
    assert(out@ =~= before + depths_wire(values@.take(0)));
    while i < values.len()
        invariant
            i <= values@.len(),
            out@ == before + depths_wire(values@.take(i as int)),
        decreases values@.len() - i,
    {
        bytes::push_u32(out, values[i]);
        i += 1;
        assert(values@.take(i as int).drop_last() =~= values@.take(i - 1));
        assert(out@ =~= before + depths_wire(values@.take(i as int)));
    }
    assert(values@.take(values@.len() as int) =~= values@);
}

/// How full each packet queue has been.
#[derive(Debug, Clone, Copy, PartialEq, Eq)]
pub struct ComQueueDepth(pub [u32; COM_PORT_COUNT]);

impl ComQueueDepth {
    /// How many bytes the depths take on the wire.
    pub const SERIALIZED_SIZE: usize = 4 * COM_PORT_COUNT;

    /// The depths on the wire.
    pub fn serialize(&self) -> (r: Vec<u8>)
        ensures
            r@ == depths_wire(self.0@),
    {
        let mut out: Vec<u8> = Vec::new();
        push_depths(&mut out, self.0.as_slice());
        assert(out@ =~= depths_wire(self.0@));
        out
    }
}

impl Default for ComQueueDepth {
    fn default() -> (r: Self)
        ensures
            forall|i: int| 0 <= i < COM_PORT_COUNT ==> #[trigger] r.0@[i] == 0,
    {
        ComQueueDepth([0, 0])
    }
}

/// How full each buffer queue has been.
#[derive(Debug, Clone, Copy, PartialEq, Eq)]
pub struct BuffQueueDepth(pub [u32; BUFFER_PORT_COUNT]);

impl BuffQueueDepth {
    /// How many bytes the depths take on the wire.
    pub const SERIALIZED_SIZE: usize = 4 * BUFFER_PORT_COUNT;

    /// The depths on the wire.
    pub fn serialize(&self) -> (r: Vec<u8>)
        ensures
            r@ == depths_wire(self.0@),
    {
        let mut out: Vec<u8> = Vec::new();
        push_depths(&mut out, self.0.as_slice());
        assert(out@ =~= depths_wire(self.0@));
        out
    }
}

impl Default for BuffQueueDepth {
    fn default() -> (r: Self)
        ensures
            forall|i: int| 0 <= i < BUFFER_PORT_COUNT ==> #[trigger] r.0@[i] == 0,
    {
        BuffQueueDepth([0])
    }
}

/// What the queues report.
#[derive(Debug, Clone, Copy, PartialEq, Eq, Structural)]
pub enum ComQueueEvent {
    /// A queue was full.
    QueueOverflow {
        /// What the queue holds.
        queue_type: QueueType,
        /// Its number among the queues of that type.
        index: i16,
    },
    /// The priority of a queue was changed.
    QueuePriorityChanged {
        /// What the queue holds.
        queue_type: QueueType,
        /// Its number among the queues of that type.
        index: i16,
        /// Its new priority.
        priority: i16,
    },
}

impl ComQueueEvent {
    /// The event identifier, relative to the component's base.
    pub open spec fn spec_id(self) -> u32 {
        match self {
            ComQueueEvent::QueueOverflow { .. } => EVENTID_QUEUE_OVERFLOW,
            ComQueueEvent::QueuePriorityChanged { .. } => EVENTID_QUEUE_PRIORITY_CHANGED,
        }
    }

    /// How serious the event is.
    pub open spec fn spec_severity(self) -> LogSeverity {
        match self {
            ComQueueEvent::QueueOverflow { .. } => LogSeverity::WarningHi,
            ComQueueEvent::QueuePriorityChanged { .. } => LogSeverity::ActivityHi,
        }
    }

    /// The arguments on the wire.
    pub open spec fn wire(self) -> Seq<u8> {
        match self {
            ComQueueEvent::QueueOverflow { queue_type, index } => seq![queue_type.code()]
                + bytes::be16(bytes::bits16(index)),
            ComQueueEvent::QueuePriorityChanged { queue_type, index, priority } => seq![
                queue_type.code(),
            ] + bytes::be16(bytes::bits16(index)) + bytes::be16(bytes::bits16(priority)),
        }
    }

    /// The event identifier, relative to the component's base.
    pub fn id(&self) -> (r: u32)
        ensures
            r == self.spec_id(),
    {
        match self {
            ComQueueEvent::QueueOverflow { .. } => EVENTID_QUEUE_OVERFLOW,
            ComQueueEvent::QueuePriorityChanged { .. } => EVENTID_QUEUE_PRIORITY_CHANGED,
        }
    }

    /// How serious the event is.
    pub fn severity(&self) -> (r: LogSeverity)
        ensures
            r == self.spec_severity(),
    {
        match self {
            ComQueueEvent::QueueOverflow { .. } => LogSeverity::WarningHi,
            ComQueueEvent::QueuePriorityChanged { .. } => LogSeverity::ActivityHi,
        }
    }

    /// The arguments on the wire.
    pub fn args(&self) -> (r: Vec<u8>)
        ensures
            r@ == self.wire(),
    {
        let mut out: Vec<u8> = Vec::new();
        match self {
            ComQueueEvent::QueueOverflow { queue_type, index } => {
                bytes::push_u8(&mut out, queue_type.as_repr());
                bytes::push_i16(&mut out, *index);
            },
            ComQueueEvent::QueuePriorityChanged { queue_type, index, priority } => {
                bytes::push_u8(&mut out, queue_type.as_repr());
                bytes::push_i16(&mut out, *index);
                bytes::push_i16(&mut out, *priority);
            },
        }
        assert(out@ =~= self.wire());
        out
    }
}

impl ComQueueEvent {
    /// The text of the event.
    pub open spec fn spec_text(self) -> Seq<u8> {
        match self {
            ComQueueEvent::QueueOverflow { queue_type, index } => text::words("The "@)
                + text::words(queue_type.spec_queue_label()) + text::words(" queue at index "@)
                + decimal::signed(index as int) + text::words(" overflowed"@),
            ComQueueEvent::QueuePriorityChanged { queue_type, index, priority } =>
                text::words(queue_type.spec_label()) + text::words(" "@)
                + decimal::signed(index as int) + text::words(" priority changed to "@)
                + decimal::signed(priority as int),
        }
    }

    /// The text of the event.
    pub fn text(&self) -> (r: Vec<u8>)
        ensures
            r@ == self.spec_text(),
    {
        match self {
            ComQueueEvent::QueueOverflow { queue_type, index } => {
                let mut out: Vec<u8> = text::begin("The ");
                text::push_words(&mut out, queue_type.queue_label());
                text::push_words(&mut out, " queue at index ");
                text::push_signed(&mut out, *index as i32);
                text::push_words(&mut out, " overflowed");
                out
            },
            ComQueueEvent::QueuePriorityChanged { queue_type, index, priority } => {
                let mut out: Vec<u8> = text::begin(queue_type.label());
                text::push_words(&mut out, " ");
                text::push_signed(&mut out, *index as i32);
                text::push_words(&mut out, " priority changed to ");
                text::push_signed(&mut out, *priority as i32);
                out
            },
        }
    }
}

/// An entry of a queue. `B` holds bytes, `D` a buffer.
#[derive(Debug)]
pub enum Item<B = Vec<u8>, D = Buffer> {
    /// A packet.
    Packet(B),
    /// A buffer.
    Buffer(D),
}

impl View for Item<Vec<u8>, Buffer> {
    type V = Item<Seq<u8>, BufferView>;

    open spec fn view(&self) -> Item<Seq<u8>, BufferView> {
        match self {
            Item::Packet(data) => Item::Packet(data@),
            Item::Buffer(buffer) => Item::Buffer(buffer@),
        }
    }
}

/// What the queues ask their surroundings to do. `B` holds bytes, `D` a buffer.
#[derive(Debug)]
pub enum Action<B = Vec<u8>, D = Buffer> {
    /// Report an event.
    Event(ComQueueEvent),
    /// Write a telemetry channel.
    Tlm {
        /// The channel, relative to the component's base.
        id: u32,
        /// The value on the wire.
        value: B,
    },
    /// Register an opcode.
    CmdReg { op_code: u32 },
    /// Answer a command.
    CmdResponse { op_code: u32, cmd_seq: u32, response: CmdResponse },
    /// Send a buffer.
    DataOut { buffer: D, context: FrameContext },
    /// Give a buffer back to the sender at a port.
    BufferReturnOut { port: usize, buffer: D },
}

impl View for Action<Vec<u8>, Buffer> {
    type V = Action<Seq<u8>, BufferView>;

    open spec fn view(&self) -> Action<Seq<u8>, BufferView> {
        match self {
            Action::Event(event) => Action::Event(*event),
            Action::Tlm { id, value } => Action::Tlm { id: *id, value: value@ },
            Action::CmdReg { op_code } => Action::CmdReg { op_code: *op_code },
            Action::CmdResponse { op_code, cmd_seq, response } => Action::CmdResponse {
                op_code: *op_code,
                cmd_seq: *cmd_seq,
                response: *response,
            },
            Action::DataOut { buffer, context } => Action::DataOut {
                buffer: buffer@,
                context: *context,
            },
            Action::BufferReturnOut { port, buffer } => Action::BufferReturnOut {
                port: *port,
                buffer: buffer@,
            },
        }
    }
}

/// A queue type survives a trip over the wire.
pub proof fn law_queue_type_round_trip(t: QueueType, v: u8)
    ensures
        QueueType::of_code(t.code()) == Some(t),
        QueueType::of_code(v) is Some ==> QueueType::of_code(v)->0.code() == v,
{
}

/// An overflow is event 0 and a warning, and a change of priority event 1 and activity. The
/// arguments are one byte for what the queue holds, two for its number, and two for the new
/// priority.
pub proof fn law_events(e: ComQueueEvent)
    ensures
        e is QueueOverflow <==> e.spec_id() == 0,
        e is QueuePriorityChanged <==> e.spec_id() == 1,
        e is QueueOverflow <==> e.spec_severity() == LogSeverity::WarningHi,
        e is QueuePriorityChanged <==> e.spec_severity() == LogSeverity::ActivityHi,
        ({
            let w = e.wire();
            match e {
                ComQueueEvent::QueueOverflow { queue_type, index } => {
                    &&& w.len() == 3
                    &&& w[0] == if queue_type == QueueType::ComQueue {
                        0u8
                    } else {
                        1u8
                    }
                    &&& bytes::sum_of_two(w, 1) == index as int % 0x1_0000
                },
                ComQueueEvent::QueuePriorityChanged { queue_type, index, priority } => {
                    &&& w.len() == 5
                    &&& w[0] == if queue_type == QueueType::ComQueue {
                        0u8
                    } else {
                        1u8
                    }
                    &&& bytes::sum_of_two(w, 1) == index as int % 0x1_0000
                    &&& bytes::sum_of_two(w, 3) == priority as int % 0x1_0000
                },
            }
        }),
{
    let w = e.wire();
    let none = Seq::<u8>::empty();
    match e {
        ComQueueEvent::QueueOverflow { queue_type, index } => {
            assert(w =~= seq![queue_type.code()] + bytes::be16(bytes::bits16(index)) + none);
            bytes::law_numbers_add_up(seq![queue_type.code()], 0, bytes::bits16(index), none);
            bytes::law_signed_numbers(index, 0, 0, 0);
        },
        ComQueueEvent::QueuePriorityChanged { queue_type, index, priority } => {
            let first = seq![queue_type.code()];
            let second = bytes::be16(bytes::bits16(index));
            let third = bytes::be16(bytes::bits16(priority));
            bytes::law_numbers_add_up(first, 0, bytes::bits16(index), third);
            assert(w =~= (first + second) + third + none);
            bytes::law_numbers_add_up(first + second, 0, bytes::bits16(priority), none);
            bytes::law_signed_numbers(index, 0, 0, 0);
            bytes::law_signed_numbers(priority, 0, 0, 0);
        },
    }
}

} // verus!
