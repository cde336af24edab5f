//! The adapter between the framing layers and a byte-stream driver.
use vstd::prelude::*;

use crate::fw::buffer::{Buffer, BufferView};
use crate::fw::outputs;
use crate::fw::types::{FrameContext, Success};

verus! {

/// How often a send is tried.
pub const RETRY_LIMIT: i16 = 10;

/// What the driver says of a transfer.
#[derive(Debug, Clone, Copy, PartialEq, Eq, Structural)]
pub enum ByteStreamStatus {
    /// It succeeded.
    OpOk,
    /// It should be tried again.
    SendRetry,
    /// There was nothing to receive.
    RecvNoData,
    /// It failed.
    OtherError,
}

impl Default for ByteStreamStatus {
    fn default() -> (r: Self)
        ensures
            r == ByteStreamStatus::OpOk,
    {
        ByteStreamStatus::OpOk
    }
}

/// What the adapter asks its surroundings to do. `D` holds a buffer.
#[derive(Debug)]
pub enum Action<D = Buffer> {
    /// Pass received data up.
    DataOut { buffer: D, context: FrameContext },
    /// Give a buffer that was to be sent back.
    DataReturnOut { buffer: D, context: FrameContext },
    /// Say whether more can be sent.
    ComStatusOut { condition: Success },
    /// Give a received buffer back to the driver.
    DrvReceiveReturnOut { buffer: D },
}

impl View for Action<Buffer> {
    type V = Action<BufferView>;

    open spec fn view(&self) -> Action<BufferView> {
        match self {
            Action::DataOut { buffer, context } => Action::DataOut {
                buffer: buffer@,
                context: *context,
            },
            Action::DataReturnOut { buffer, context } => Action::DataReturnOut {
                buffer: buffer@,
                context: *context,
            },
            Action::ComStatusOut { condition } => Action::ComStatusOut { condition: *condition },
            Action::DrvReceiveReturnOut { buffer } => Action::DrvReceiveReturnOut {
                buffer: buffer@,
            },
        }
    }
}

/// A buffer that the driver is to send. `D` holds the buffer.
#[derive(Debug)]
pub struct Sending<D = Buffer> {
    /// The buffer.
    pub buffer: D,
    /// What goes with it.
    pub context: FrameContext,
    /// How often it has been tried.
    pub attempts: i16,
}

impl View for Sending<Buffer> {
    type V = Sending<BufferView>;

    open spec fn view(&self) -> Sending<BufferView> {
        Sending { buffer: self.buffer@, context: self.context, attempts: self.attempts }
    }
}

/// Whether a send is tried again after one more attempt.
pub open spec fn tries_again(attempts: int, status: ByteStreamStatus) -> bool {
    status == ByteStreamStatus::SendRetry && attempts + 1 < RETRY_LIMIT
}

/// How a send that is not tried again went.
pub open spec fn outcome(status: ByteStreamStatus) -> Success {
    if status == ByteStreamStatus::OpOk {
        Success::Success
    } else {
        Success::Failure
    }
}

/// Whether nothing may be sent before the driver has connected, after a send ended with
/// `status`, where `waits` says whether that was so before.
pub open spec fn waits_after(waits: bool, status: ByteStreamStatus) -> bool {
    waits || outcome(status) == Success::Failure
}

/// Whether it is announced that data can be sent when the driver connects. After that
/// nothing is waited for any more.
pub open spec fn announces(listened_to: bool, waits: bool) -> bool {
    listened_to && waits
}

/// What becomes of data that was received.
pub open spec fn received(buffer: BufferView, status: ByteStreamStatus) -> Action<BufferView> {
    if status == ByteStreamStatus::OpOk {
        Action::DataOut { buffer, context: FrameContext::initial() }
    } else {
        Action::DrvReceiveReturnOut { buffer }
    }
}

/// Passes data to a byte-stream driver and back.
#[derive(Debug)]
pub struct ComStub {
    /// Whether anyone listens for whether more can be sent.
    com_status: bool,
    /// Whether nothing may be sent before the driver has connected.
    reinitialize: bool,
}

impl ComStub {
    /// Whether anyone listens for whether more can be sent.
    pub closed spec fn listened_to(self) -> bool {
        self.com_status
    }

    /// Whether nothing may be sent before the driver has connected.
    pub closed spec fn waits_for_driver(self) -> bool {
        self.reinitialize
    }

    /// The adapter before the driver has connected.
    pub fn new() -> (r: Self)
        ensures
            !r.listened_to(),
            r.waits_for_driver(),
    {
        ComStub { com_status: false, reinitialize: true }
    }

    /// Connects whoever listens for whether more can be sent.
    pub fn connect_com_status(&mut self)
        ensures
            final(self).listened_to(),
            final(self).waits_for_driver() == old(self).waits_for_driver(),
    {
        self.com_status = true;
    }

    /// Whether nothing may be sent before the driver has connected.
    pub fn needs_reinitialize(&self) -> (r: bool)
        ensures
            r == self.waits_for_driver(),
    {
        self.reinitialize
    }

    /// Whether data can be sent.
    pub fn takes_data(&self) -> (r: bool)
        ensures
            r == (self.listened_to() && !self.waits_for_driver()),
    {
        self.com_status && !self.reinitialize
    }

    /// Data is to be sent: the buffer that the driver is to be tried with.
    pub fn data_in(&self, buffer: Buffer, context: &FrameContext) -> (r: Sending)
        requires
            self.listened_to(),
            !self.waits_for_driver(),
        ensures
            r@ == (Sending { buffer: buffer@, context: *context, attempts: 0 }),
    {
        Sending { buffer, context: *context, attempts: 0 }
    }

    /// The driver has tried a send. It is to try again where it says so and may; otherwise
    /// the buffer goes back, and then it is said whether more can be sent.
    pub fn send_tried(
        &mut self,
        sending: Sending,
        status: ByteStreamStatus,
        out: &mut Vec<Action>,
    ) -> (r: Option<Sending>)
        requires
            old(self).listened_to(),
            0 <= sending.attempts < RETRY_LIMIT,
        ensures
            final(self).listened_to(),
            if tries_again(sending.attempts as int, status) {
                &&& r is Some
                &&& r->0@ == (Sending {
                    attempts: (sending.attempts + 1) as i16,
                    ..sending@
                })
                &&& *final(self) == *old(self)
                &&& outputs::views(final(out)@) == outputs::views(old(out)@)
            } else {
                &&& r is None
                &&& final(self).waits_for_driver() == waits_after(
                    old(self).waits_for_driver(),
                    status,
                )
                &&& outputs::views(final(out)@) == outputs::views(old(out)@).push(
                    Action::DataReturnOut { buffer: sending@.buffer, context: sending.context },
                ).push(Action::ComStatusOut { condition: outcome(status) })
            },
    {
        let attempts: i16 = sending.attempts + 1;
        if status == ByteStreamStatus::SendRetry && attempts < RETRY_LIMIT {
            return Some(Sending { buffer: sending.buffer, context: sending.context, attempts });
        }
        let condition = if status == ByteStreamStatus::OpOk {
            Success::Success
        } else {
            self.reinitialize = true;
            Success::Failure
        };
        outputs::emit(
            out,
            Action::DataReturnOut { buffer: sending.buffer, context: sending.context },
        );
        outputs::emit(out, Action::ComStatusOut { condition });
        None
    }

    /// The driver has connected. Whoever listens is told that data can be sent, once.
    pub fn drv_connected(&mut self, out: &mut Vec<Action>)
        ensures
            final(self).listened_to() == old(self).listened_to(),
            if announces(old(self).listened_to(), old(self).waits_for_driver()) {
                &&& !final(self).waits_for_driver()
                &&& outputs::views(final(out)@) == outputs::views(old(out)@).push(
                    Action::ComStatusOut { condition: Success::Success },
                )
            } else {
                &&& *final(self) == *old(self)
                &&& outputs::views(final(out)@) == outputs::views(old(out)@)
            },
    {
        if self.com_status && self.reinitialize {
            self.reinitialize = false;
            outputs::emit(out, Action::ComStatusOut { condition: Success::Success });
        }
    }

    /// Data was received. What was received well is passed up; anything else goes back to
    /// the driver.
    pub fn drv_receive_in(&self, buffer: Buffer, status: ByteStreamStatus, out: &mut Vec<Action>)
        ensures
            outputs::views(final(out)@) == outputs::views(old(out)@).push(
                if status == ByteStreamStatus::OpOk {
                    Action::DataOut { buffer: buffer@, context: FrameContext::initial() }
                } else {
                    Action::DrvReceiveReturnOut { buffer: buffer@ }
                },
            ),
            outputs::views(final(out)@) == outputs::views(old(out)@).push(
                received(buffer@, status),
            ),
    {
        if status == ByteStreamStatus::OpOk {
            outputs::emit(out, Action::DataOut { buffer, context: FrameContext::default() });
        } else {
            outputs::emit(out, Action::DrvReceiveReturnOut { buffer });
        }
    }

    /// Received data comes back from above, and goes back to the driver.
    pub fn data_return_in(&self, buffer: Buffer, out: &mut Vec<Action>)
        ensures
            outputs::views(final(out)@) == outputs::views(old(out)@).push(
                Action::DrvReceiveReturnOut { buffer: buffer@ },
            ),
    {
        outputs::emit(out, Action::DrvReceiveReturnOut { buffer });
    }
}

/// How many attempts a send takes after `attempts` of them, the driver's answers being
/// `replies`, one after the other; all replies, where none of them ends it.
pub open spec fn attempts_taken(attempts: int, replies: Seq<ByteStreamStatus>) -> nat
    decreases replies.len(),
{
    if replies.len() == 0 {
        0
    } else if tries_again(attempts, replies[0]) {
        1 + attempts_taken(attempts + 1, replies.skip(1))
    } else {
        1
    }
}

/// A send is tried no more often than the limit, whatever the driver answers.
pub proof fn law_retries_are_bounded(attempts: int, replies: Seq<ByteStreamStatus>)
    requires
        0 <= attempts < RETRY_LIMIT,
    ensures
        attempts_taken(attempts, replies) <= RETRY_LIMIT - attempts,
    decreases replies.len(),
{
    if replies.len() > 0 && tries_again(attempts, replies[0]) {
        law_retries_are_bounded(attempts + 1, replies.skip(1));
    }
}

/// After a send that failed nothing more is taken until the driver connects. The first
/// time it does, that is announced; after that, however often it connects and however
/// many sends go well, it is not announced again before another send fails.
pub proof fn law_recovery_is_announced_once(
    waits: bool,
    failure: ByteStreamStatus,
    replies: Seq<ByteStreamStatus>,
)
    requires
        failure != ByteStreamStatus::OpOk,
        forall|i: int| 0 <= i < replies.len() ==> #[trigger] replies[i] == ByteStreamStatus::OpOk,
    ensures
        waits_after(waits, failure),
        announces(true, waits_after(waits, failure)),
        !announces(
            true,
            replies.fold_left(false, |w: bool, status: ByteStreamStatus| waits_after(w, status)),
        ),
    decreases replies.len(),
{
    reveal(Seq::fold_left);
    if replies.len() > 0 {
        assert(replies[replies.len() - 1] == ByteStreamStatus::OpOk);
        law_recovery_is_announced_once(waits, failure, replies.drop_last());
    }
}

/// A driver that keeps asking for another try gets exactly as many as the limit, and the
/// send has then failed.
pub proof fn law_endless_retries_fail(attempts: int, replies: Seq<ByteStreamStatus>)
    requires
        0 <= attempts < RETRY_LIMIT,
        replies.len() >= RETRY_LIMIT - attempts,
        forall|i: int|
            0 <= i < RETRY_LIMIT - attempts ==> #[trigger] replies[i]
                == ByteStreamStatus::SendRetry,
    ensures
        attempts_taken(attempts, replies) == RETRY_LIMIT - attempts,
        !tries_again(RETRY_LIMIT - 1, ByteStreamStatus::SendRetry),
        outcome(ByteStreamStatus::SendRetry) == Success::Failure,
    decreases RETRY_LIMIT - attempts,
{
    assert(replies[0] == ByteStreamStatus::SendRetry);
    if attempts + 1 < RETRY_LIMIT {
        law_endless_retries_fail(attempts + 1, replies.skip(1));
    }
}

/// A send is tried again only when the driver asks for it and fewer than ten attempts were
/// made. It went well only when the driver says so; anything else is a failure, after which
/// nothing may be sent before the driver has connected. A send that went well changes nothing
/// about that.
pub proof fn law_how_a_send_ends(attempts: int, waits: bool, status: ByteStreamStatus)
    ensures
        tries_again(attempts, status) <==> status == ByteStreamStatus::SendRetry && attempts < 9,
        outcome(status) == Success::Success <==> status == ByteStreamStatus::OpOk,
        waits_after(waits, status) <==> waits || status != ByteStreamStatus::OpOk,
        waits_after(false, ByteStreamStatus::OpOk) == false,
{
}

/// It is announced that data can be sent exactly where someone listens and the driver was
/// waited for.
pub proof fn law_when_recovery_is_announced(listened_to: bool, waits: bool)
    ensures
        announces(listened_to, waits) <==> listened_to && waits,
{
}

/// Data that was received well goes up as it is, with the context of a packet of which nothing is
/// known; any other goes back to the driver as it is, and nowhere else.
pub proof fn law_what_becomes_of_received_data(buffer: BufferView, status: ByteStreamStatus)
    ensures
        received(buffer, status) is DataOut <==> status == ByteStreamStatus::OpOk,
        received(buffer, status) is DrvReceiveReturnOut <==> status != ByteStreamStatus::OpOk,
        received(buffer, status) matches Action::DataOut { buffer: b, context } ==> b == buffer
            && context == FrameContext::initial(),
        received(buffer, status) matches Action::DrvReceiveReturnOut { buffer: b } ==> b == buffer,
{
}

} // verus!
