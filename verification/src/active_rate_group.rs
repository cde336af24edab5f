//! A group of components that are called once per tick of a clock.
use vstd::prelude::*;

use crate::fw::bytes;
use crate::fw::counter;
use crate::fw::decimal;
use crate::fw::text;
use crate::fw::throttle::EventThrottle;
use crate::fw::time::RawTime;
use crate::fw::types::{LogSeverity, MsgDispatchStatus};

verus! {

broadcast use crate::fw::bytes::lemma_be32_len;

/// How many components a group can have.
pub const RATE_GROUP_MEMBER_OUT_PORTS: usize = 10;

/// How often slipped cycles in a row are reported.
pub const OVERRUN_THROTTLE: u32 = 5;

/// How often a clock that cannot be read is reported.
pub const TIME_GET_ERROR_THROTTLE: u32 = 5;

/// Message type of a tick.
pub const MSG_TYPE_CYCLE_IN: i32 = 1;

/// Message type of a ping.
pub const MSG_TYPE_PING_IN: i32 = 2;

/// How large a queued message can be.
pub const MSG_SIZE: usize = 32;

/// `RateGroupStarted`.
pub const EVENTID_RATE_GROUP_STARTED: u32 = 0;

/// `RateGroupCycleSlip`.
pub const EVENTID_RATE_GROUP_CYCLE_SLIP: u32 = 1;

/// `RateGroupTimeGetError`.
pub const EVENTID_RATE_GROUP_TIME_GET_ERROR: u32 = 2;

/// Telemetry channel of the longest cycle, in microseconds.
pub const CHANID_RG_MAX_TIME: u32 = 0;

/// Telemetry channel of the number of slipped cycles.
pub const CHANID_RG_CYCLE_SLIPS: u32 = 1;

/// What the group reports.
#[derive(Debug, Clone, Copy, PartialEq, Eq, Structural)]
pub enum RateGroupEvent {
    /// The group has started.
    RateGroupStarted,
    /// The next tick came before a cycle had ended.
    RateGroupCycleSlip { cycle: u32 },
    /// The end of a cycle could not be read from the clock.
    RateGroupTimeGetError { status: u8 },
}

impl RateGroupEvent {
    /// The event identifier, relative to the component's base.
    pub open spec fn spec_id(self) -> u32 {
        match self {
            RateGroupEvent::RateGroupStarted => EVENTID_RATE_GROUP_STARTED,
            RateGroupEvent::RateGroupCycleSlip { .. } => EVENTID_RATE_GROUP_CYCLE_SLIP,
            RateGroupEvent::RateGroupTimeGetError { .. } => EVENTID_RATE_GROUP_TIME_GET_ERROR,
        }
    }

    /// How serious the event is.
    pub open spec fn spec_severity(self) -> LogSeverity {
        match self {
            RateGroupEvent::RateGroupStarted => LogSeverity::Diagnostic,
            _ => LogSeverity::WarningHi,
        }
    }

    /// The arguments on the wire.
    pub open spec fn wire(self) -> Seq<u8> {
        match self {
            RateGroupEvent::RateGroupStarted => Seq::empty(),
            RateGroupEvent::RateGroupCycleSlip { cycle } => bytes::be32(cycle),
            RateGroupEvent::RateGroupTimeGetError { status } => seq![status],
        }
    }

    /// The event identifier, relative to the component's base.
    pub fn id(&self) -> (r: u32)
        ensures
            r == self.spec_id(),
    {
        match self {
            RateGroupEvent::RateGroupStarted => EVENTID_RATE_GROUP_STARTED,
            RateGroupEvent::RateGroupCycleSlip { .. } => EVENTID_RATE_GROUP_CYCLE_SLIP,
            RateGroupEvent::RateGroupTimeGetError { .. } => EVENTID_RATE_GROUP_TIME_GET_ERROR,
        }
    }

    /// How serious the event is.
    pub fn severity(&self) -> (r: LogSeverity)
        ensures
            r == self.spec_severity(),
    {
        match self {
            RateGroupEvent::RateGroupStarted => LogSeverity::Diagnostic,
            _ => LogSeverity::WarningHi,
        }
    }

    /// The arguments on the wire.
    pub fn args(&self) -> (r: Vec<u8>)
        ensures
            r@ == self.wire(),
    {
        let mut out: Vec<u8> = Vec::new();
        match self {
            RateGroupEvent::RateGroupStarted => {},
            RateGroupEvent::RateGroupCycleSlip { cycle } => {
                bytes::push_u32(&mut out, *cycle);
            },
            RateGroupEvent::RateGroupTimeGetError { status } => {
                bytes::push_u8(&mut out, *status);
            },
        }
        assert(out@ =~= self.wire());
        out
    }
}

impl RateGroupEvent {
    /// The text of the event.
    pub open spec fn spec_text(self) -> Seq<u8> {
        match self {
            RateGroupEvent::RateGroupStarted => text::words("Rate group started."@),
            RateGroupEvent::RateGroupCycleSlip { cycle } =>
                text::words("Rate group cycle slipped on cycle "@) + decimal::digits(cycle as nat),
            RateGroupEvent::RateGroupTimeGetError { status } =>
                text::words("Rate group failed to read cycle end time with status "@)
                + decimal::digits(status as nat),
        }
    }

    /// The text of the event.
    pub fn text(&self) -> (r: Vec<u8>)
        ensures
            r@ == self.spec_text(),
    {
        match self {
            RateGroupEvent::RateGroupStarted => text::begin("Rate group started."),
            RateGroupEvent::RateGroupCycleSlip { cycle } => {
                let mut out: Vec<u8> = text::begin("Rate group cycle slipped on cycle ");
                text::push_number(&mut out, *cycle as u64);
                out
            },
            RateGroupEvent::RateGroupTimeGetError { status } => {
                let mut out: Vec<u8> = text::begin("Rate group failed to read cycle end time with status ");
                text::push_number(&mut out, *status as u64);
                out
            },
        }
    }
}

/// What the group asks its surroundings to do.
#[derive(Debug, Clone, Copy, PartialEq, Eq, Structural)]
pub enum Action {
    /// Report an event.
    Event(RateGroupEvent),
    /// Write a telemetry channel, whose number is relative to the component's base.
    Tlm { id: u32, value: u32 },
    /// Call the component at a port.
    RateGroupMemberOut { port: usize, context: u32 },
    /// Read the clock and end the cycle that began at `cycle_start`.
    FinishCycle { cycle_start: RawTime },
    /// Answer a ping.
    PingOut { key: u32 },
}

/// A queued message.
#[derive(Debug, Clone, Copy, PartialEq, Eq, Structural)]
pub enum Content {
    /// A tick.
    Cycle { cycle_start: RawTime },
    /// A ping.
    Ping { key: u32 },
}

impl Content {
    /// The type of the message.
    pub open spec fn type_code(self) -> i32 {
        match self {
            Content::Cycle { .. } => MSG_TYPE_CYCLE_IN,
            Content::Ping { .. } => MSG_TYPE_PING_IN,
        }
    }

    /// The message on the wire: its type, the port, and what it says.
    pub open spec fn wire(self, port: i16) -> Seq<u8> {
        bytes::be32(bytes::bits32(self.type_code())) + bytes::be16(bytes::bits16(port)) + match self {
            Content::Cycle { cycle_start } => cycle_start.wire(),
            Content::Ping { key } => bytes::be32(key),
        }
    }

    /// Puts a message together: its type, the port, and what it says.
    pub fn encode(&self, port: i16) -> (r: Vec<u8>)
        ensures
            r@ == self.wire(port),
    {
        let mut out: Vec<u8> = Vec::new();
        match self {
            Content::Cycle { cycle_start } => {
                bytes::push_i32(&mut out, MSG_TYPE_CYCLE_IN);
                bytes::push_i16(&mut out, port);
                bytes::push_u32(&mut out, cycle_start.seconds);
                bytes::push_u32(&mut out, cycle_start.nanoseconds);
            },
            Content::Ping { key } => {
                bytes::push_i32(&mut out, MSG_TYPE_PING_IN);
                bytes::push_i16(&mut out, port);
                bytes::push_u32(&mut out, *key);
            },
        }
        assert(out@ =~= self.wire(port));
        out
    }

    /// Takes a message apart.
    pub fn decode(msg_type: i32, buf: &[u8]) -> (r: Option<Self>)
        ensures
            r == content_of(msg_type, buf@),
    {
        if bytes::read_u16(buf, 0).is_err() {
            return None;
        }
        if msg_type == MSG_TYPE_CYCLE_IN {
            match (bytes::read_u32(buf, 2), bytes::read_u32(buf, 6)) {
                (Ok(seconds), Ok(nanoseconds)) => Some(
                    Content::Cycle { cycle_start: RawTime { seconds, nanoseconds } },
                ),
                _ => None,
            }
        } else if msg_type == MSG_TYPE_PING_IN {
            match bytes::read_u32(buf, 2) {
                Ok(key) => Some(Content::Ping { key }),
                Err(_) => None,
            }
        } else {
            None
        }
    }
}

/// What a message of type `msg_type` says after a port number, if anything.
pub open spec fn content_of(msg_type: i32, buf: Seq<u8>) -> Option<Content> {
    if bytes::u16_read(buf, 0) is Err {
        None
    } else if msg_type == MSG_TYPE_CYCLE_IN {
        match (bytes::u32_read(buf, 2), bytes::u32_read(buf, 6)) {
            (Ok(seconds), Ok(nanoseconds)) => Some(
                Content::Cycle { cycle_start: RawTime { seconds, nanoseconds } },
            ),
            _ => None,
        }
    } else if msg_type == MSG_TYPE_PING_IN {
        match bytes::u32_read(buf, 2) {
            Ok(key) => Some(Content::Ping { key }),
            Err(_) => None,
        }
    } else {
        None
    }
}

/// The state of a rate group.
#[verifier::ext_equal]
pub struct RateGroupState {
    /// Which ports to members are connected.
    pub members: Seq<bool>,
    /// What each member is called with; nothing before the group is set up.
    pub contexts: Seq<u32>,
    /// Whether a tick has come since the last cycle began.
    pub cycle_started: bool,
    /// How many cycles have ended.
    pub cycles: u32,
    /// The longest cycle, in microseconds.
    pub max_time: u32,
    /// How many slipped cycles were reported, less the cycles since that did not slip.
    pub overrun_throttle: u32,
    /// How many cycles slipped.
    pub cycle_slips: u32,
    /// The longest cycle that was written last.
    pub prev_max: Option<u32>,
    /// The number of slipped cycles that was written last.
    pub prev_slips: Option<u32>,
    /// Limits the reports of a clock that cannot be read.
    pub time_get_error_throttle: EventThrottle,
}

impl RateGroupState {
    /// The conditions that every operation keeps. What was written last is the longest
    /// cycle so far, and no more slips are held against the group than are reported.
    pub open spec fn valid(self) -> bool {
        &&& self.members.len() == RATE_GROUP_MEMBER_OUT_PORTS
        &&& self.contexts.len() == 0 || self.contexts.len() == RATE_GROUP_MEMBER_OUT_PORTS
        &&& self.prev_max is Some ==> self.prev_max->0 == self.max_time
        &&& self.prev_slips is Some ==> self.prev_slips->0 == self.cycle_slips
        &&& self.overrun_throttle <= OVERRUN_THROTTLE
    }

    /// Whether the group has been set up.
    pub open spec fn configured(self) -> bool {
        self.contexts.len() == RATE_GROUP_MEMBER_OUT_PORTS
    }

    /// A group that has not been set up.
    pub open spec fn initial() -> RateGroupState {
        RateGroupState {
            members: Seq::new(RATE_GROUP_MEMBER_OUT_PORTS as nat, |i: int| false),
            contexts: Seq::empty(),
            cycle_started: false,
            cycles: 0,
            max_time: 0,
            overrun_throttle: 0,
            cycle_slips: 0,
            prev_max: None,
            prev_slips: None,
            time_get_error_throttle: EventThrottle { limit: TIME_GET_ERROR_THROTTLE, count: 0 },
        }
    }

    /// The calls to the first `n` members that are connected.
    pub open spec fn calls(self, n: nat) -> Seq<Action>
        decreases n,
    {
        if n == 0 {
            Seq::empty()
        } else {
            let before = self.calls((n - 1) as nat);
            if self.members[n - 1] {
                before.push(
                    Action::RateGroupMemberOut {
                        port: (n - 1) as usize,
                        context: self.contexts[n - 1],
                    },
                )
            } else {
                before
            }
        }
    }

    /// The state after a cycle began.
    pub open spec fn begun(self) -> RateGroupState {
        RateGroupState { cycle_started: false, ..self }
    }

    /// What a cycle that begins leads to.
    pub open spec fn begin_outputs(self, cycle_start: RawTime) -> Seq<Action> {
        self.calls(RATE_GROUP_MEMBER_OUT_PORTS as nat).push(Action::FinishCycle { cycle_start })
    }

    /// The longest cycle once another one took `cycle_time`.
    pub open spec fn longest(self, cycle_time: u32) -> u32 {
        if cycle_time > self.max_time {
            cycle_time
        } else {
            self.max_time
        }
    }

    /// The state after a cycle that took `cycle_time`.
    pub open spec fn ended(self, cycle_time: u32, time_status: u8) -> RateGroupState {
        RateGroupState {
            cycles: counter::bumped(self.cycles),
            max_time: self.longest(cycle_time),
            prev_max: Some(self.longest(cycle_time)),
            cycle_slips: if self.cycle_started {
                counter::bumped(self.cycle_slips)
            } else {
                self.cycle_slips
            },
            prev_slips: if self.cycle_started {
                Some(counter::bumped(self.cycle_slips))
            } else {
                self.prev_slips
            },
            overrun_throttle: if self.cycle_started {
                if self.overrun_throttle < OVERRUN_THROTTLE {
                    (self.overrun_throttle + 1) as u32
                } else {
                    self.overrun_throttle
                }
            } else if self.overrun_throttle > 0 {
                (self.overrun_throttle - 1) as u32
            } else {
                0
            },
            time_get_error_throttle: if time_status != 0 {
                self.time_get_error_throttle.tried()
            } else {
                self.time_get_error_throttle
            },
            ..self
        }
    }

    /// What is reported and written at the end of a cycle that took `cycle_time`.
    pub open spec fn end_outputs(self, cycle_time: u32, time_status: u8) -> Seq<Action> {
        let clock = if time_status != 0 && self.time_get_error_throttle.open() {
            seq![Action::Event(RateGroupEvent::RateGroupTimeGetError { status: time_status })]
        } else {
            Seq::empty()
        };
        let longest = if self.prev_max == Some(self.longest(cycle_time)) {
            Seq::empty()
        } else {
            seq![Action::Tlm { id: CHANID_RG_MAX_TIME, value: self.longest(cycle_time) }]
        };
        let slip = if self.cycle_started && self.overrun_throttle < OVERRUN_THROTTLE {
            seq![Action::Event(RateGroupEvent::RateGroupCycleSlip { cycle: self.cycles })]
        } else {
            Seq::empty()
        };
        let slips = if self.cycle_started && self.prev_slips != Some(
            counter::bumped(self.cycle_slips),
        ) {
            seq![
                Action::Tlm {
                    id: CHANID_RG_CYCLE_SLIPS,
                    value: counter::bumped(self.cycle_slips),
                },
            ]
        } else {
            Seq::empty()
        };
        clock + longest + slip + slips
    }
}

/// Calls its members once per tick, and keeps count of cycles that took too long.
#[derive(Debug)]
pub struct ActiveRateGroup {
    members: Vec<bool>,
    contexts: Vec<u32>,
    cycle_started: bool,
    cycles: u32,
    max_time: u32,
    overrun_throttle: u32,
    cycle_slips: u32,
    prev_max_tlm: Option<u32>,
    prev_slips_tlm: Option<u32>,
    time_get_error_throttle: EventThrottle,
}

impl View for ActiveRateGroup {
    type V = RateGroupState;

    closed spec fn view(&self) -> RateGroupState {
        RateGroupState {
            members: self.members@,
            contexts: self.contexts@,
            cycle_started: self.cycle_started,
            cycles: self.cycles,
            max_time: self.max_time,
            overrun_throttle: self.overrun_throttle,
            cycle_slips: self.cycle_slips,
            prev_max: self.prev_max_tlm,
            prev_slips: self.prev_slips_tlm,
            time_get_error_throttle: self.time_get_error_throttle,
        }
    }
}

impl ActiveRateGroup {
    /// The conditions that every operation keeps.
    pub open spec fn wf(self) -> bool {
        self@.valid()
    }

    /// A group that has not been set up, with no members.
    pub fn new() -> (r: Self)
        ensures
            r.wf(),
            r@ == RateGroupState::initial(),
    {
        let mut members: Vec<bool> = Vec::new();
        let mut i: usize = 0;
        while i < RATE_GROUP_MEMBER_OUT_PORTS
            invariant
                i <= RATE_GROUP_MEMBER_OUT_PORTS,
                members@ == Seq::new(i as nat, |k: int| false),
            decreases RATE_GROUP_MEMBER_OUT_PORTS - i,
        {
            members.push(false);
            i += 1;
            assert(members@ =~= Seq::new(i as nat, |k: int| false));
        }
        ActiveRateGroup {
            members,
            contexts: Vec::new(),
            cycle_started: false,
            cycles: 0,
            max_time: 0,
            overrun_throttle: 0,
            cycle_slips: 0,
            prev_max_tlm: None,
            prev_slips_tlm: None,
            time_get_error_throttle: EventThrottle::new(TIME_GET_ERROR_THROTTLE),
        }
    }

    /// Connects the port to a member.
    pub fn connect_member(&mut self, port: usize)
        requires
            old(self).wf(),
            port < RATE_GROUP_MEMBER_OUT_PORTS,
        ensures
            final(self).wf(),
            final(self)@ == (RateGroupState {
                members: old(self)@.members.update(port as int, true),
                ..old(self)@
            }),
    {
        self.members.set(port, true);
    }

    /// Sets what each member is called with.
    pub fn configure(&mut self, contexts: &[u32; RATE_GROUP_MEMBER_OUT_PORTS])
        requires
            old(self).wf(),
        ensures
            final(self).wf(),
            final(self)@.configured(),
            final(self)@ == (RateGroupState { contexts: contexts@, ..old(self)@ }),
    {
        let mut copy: Vec<u32> = Vec::new();
        let mut i: usize = 0;
        while i < RATE_GROUP_MEMBER_OUT_PORTS
            invariant
                i <= RATE_GROUP_MEMBER_OUT_PORTS,
                copy@ == contexts@.take(i as int),
            decreases RATE_GROUP_MEMBER_OUT_PORTS - i,
        {
            copy.push(contexts[i]);
            i += 1;
            assert(copy@ =~= contexts@.take(i as int));
        }
        assert(copy@ =~= contexts@);
        self.contexts = copy;
    }

    /// Whether the group has been set up.
    pub fn is_configured(&self) -> (r: bool)
        ensures
            r == self@.configured(),
    {
        self.contexts.len() == RATE_GROUP_MEMBER_OUT_PORTS
    }

    /// The group starts.
    pub fn preamble(&self, out: &mut Vec<Action>)
        ensures
            final(out)@ == old(out)@.push(Action::Event(RateGroupEvent::RateGroupStarted)),
    {
        out.push(Action::Event(RateGroupEvent::RateGroupStarted));
    }

    /// A tick comes. It is noted at once, before the message that is to be queued for it.
    pub fn cycle_in(&mut self, port: i16, cycle_start: &RawTime) -> (r: Vec<u8>)
        requires
            old(self).wf(),
        ensures
            final(self).wf(),
            final(self)@ == (RateGroupState { cycle_started: true, ..old(self)@ }),
            r@ == (Content::Cycle { cycle_start: *cycle_start }).wire(port),
    {
        self.cycle_started = true;
        Content::Cycle { cycle_start: *cycle_start }.encode(port)
    }

    /// A ping comes; the message that is to be queued for it.
    pub fn ping_in(&self, port: i16, key: u32) -> (r: Vec<u8>)
        ensures
            r@ == (Content::Ping { key }).wire(port),
    {
        Content::Ping { key }.encode(port)
    }

    /// A cycle begins: the members are called, then the cycle is to be ended.
    pub fn start_cycle(&mut self, cycle_start: &RawTime, out: &mut Vec<Action>)
        requires
            old(self).wf(),
            old(self)@.configured(),
        ensures
            final(self).wf(),
            final(self)@ == (RateGroupState { cycle_started: false, ..old(self)@ }),
            final(out)@ == old(out)@ + old(self)@.calls(
                RATE_GROUP_MEMBER_OUT_PORTS as nat,
            ).push(Action::FinishCycle { cycle_start: *cycle_start }),
            final(self)@ == old(self)@.begun(),
            final(out)@ == old(out)@ + old(self)@.begin_outputs(*cycle_start),
    {
        let ghost before = out@;
        let ghost s = self@;
        self.cycle_started = false;
        let mut i: usize = 0;
        assert(out@ =~= before + s.calls(0));
        while i < RATE_GROUP_MEMBER_OUT_PORTS
            invariant
                i <= RATE_GROUP_MEMBER_OUT_PORTS,
                s.valid(),
                s.configured(),
                self@ == (RateGroupState { cycle_started: false, ..s }),
                out@ == before + s.calls(i as nat),
            decreases RATE_GROUP_MEMBER_OUT_PORTS - i,
        {
            if self.members[i] {
                out.push(Action::RateGroupMemberOut { port: i, context: self.contexts[i] });
            }
            i += 1;
            assert(out@ =~= before + s.calls(i as nat));
        }
        out.push(Action::FinishCycle { cycle_start: *cycle_start });
        assert(out@ =~= before + s.calls(RATE_GROUP_MEMBER_OUT_PORTS as nat).push(
            Action::FinishCycle { cycle_start: *cycle_start },
        ));
    }

    /// A cycle ends, `end_time` being what the clock shows and `time_status` zero where it
    /// could be read.
    pub fn finish_cycle(
        &mut self,
        cycle_start: &RawTime,
        end_time: &RawTime,
        time_status: u8,
        out: &mut Vec<Action>,
    )
        requires
            old(self).wf(),
        ensures
            final(self).wf(),
            final(self)@ == old(self)@.ended(
                end_time.microseconds_between(*cycle_start),
                time_status,
            ),
            final(out)@ == old(out)@ + old(self)@.end_outputs(
                end_time.microseconds_between(*cycle_start),
                time_status,
            ),
    {
        let ghost before = out@;
        let ghost s = self@;
        if time_status != 0 {
            if self.time_get_error_throttle.should_emit() {
                out.push(
                    Action::Event(RateGroupEvent::RateGroupTimeGetError { status: time_status }),
                );
            }
        }
        let cycle_time: u32 = end_time.get_diff_usec(cycle_start);
        if cycle_time > self.max_time {
            self.max_time = cycle_time;
        }
        let unchanged: bool = match self.prev_max_tlm {
            Some(v) => v == self.max_time,
            None => false,
        };
        if !unchanged {
            self.prev_max_tlm = Some(self.max_time);
            out.push(Action::Tlm { id: CHANID_RG_MAX_TIME, value: self.max_time });
        }
        if self.cycle_started {
            self.cycle_slips = counter::bump(self.cycle_slips);
            if self.overrun_throttle < OVERRUN_THROTTLE {
                out.push(
                    Action::Event(RateGroupEvent::RateGroupCycleSlip { cycle: self.cycles }),
                );
                self.overrun_throttle = self.overrun_throttle + 1;
            }
            let same: bool = match self.prev_slips_tlm {
                Some(v) => v == self.cycle_slips,
                None => false,
            };
            if !same {
                self.prev_slips_tlm = Some(self.cycle_slips);
                out.push(Action::Tlm { id: CHANID_RG_CYCLE_SLIPS, value: self.cycle_slips });
            }
        } else if self.overrun_throttle > 0 {
            self.overrun_throttle = self.overrun_throttle - 1;
        }
        self.cycles = counter::bump(self.cycles);
        assert(self@ =~= s.ended(cycle_time, time_status));
        assert(out@ =~= before + s.end_outputs(cycle_time, time_status));
    }

    /// Takes a queued message apart and handles it. A malformed message changes nothing.
    pub fn dispatch_message(
        &mut self,
        msg_type: i32,
        buf: &[u8],
        out: &mut Vec<Action>,
    ) -> (r: MsgDispatchStatus)
        requires
            old(self).wf(),
            content_of(msg_type, buf@) is Some && content_of(msg_type, buf@)->0 is Cycle ==> old(
                self,
            )@.configured(),
        ensures
            final(self).wf(),
            match content_of(msg_type, buf@) {
                Some(Content::Cycle { cycle_start }) => {
                    &&& r == MsgDispatchStatus::OK
                    &&& final(self)@ == (RateGroupState { cycle_started: false, ..old(self)@ })
                    &&& final(out)@ == old(out)@ + old(self)@.calls(
                        RATE_GROUP_MEMBER_OUT_PORTS as nat,
                    ).push(Action::FinishCycle { cycle_start })
                },
                Some(Content::Ping { key }) => {
                    &&& r == MsgDispatchStatus::OK
                    &&& *final(self) == *old(self)
                    &&& final(out)@ == old(out)@.push(Action::PingOut { key })
                },
                None => {
                    &&& r == MsgDispatchStatus::Error
                    &&& *final(self) == *old(self)
                    &&& final(out)@ == old(out)@
                },
            },
    {
        match Content::decode(msg_type, buf) {
            Some(Content::Cycle { cycle_start }) => {
                self.start_cycle(&cycle_start, out);
                MsgDispatchStatus::OK
            },
            Some(Content::Ping { key }) => {
                out.push(Action::PingOut { key });
                MsgDispatchStatus::OK
            },
            None => MsgDispatchStatus::Error,
        }
    }
}

/// A message comes out of the queue as it was put in.
pub proof fn law_message_round_trip(m: Content, port: i16)
    ensures
        m.wire(port).take(4) == bytes::be32(bytes::bits32(m.type_code())),
        content_of(m.type_code(), m.wire(port).skip(4)) == Some(m),
{
    let p = bytes::be16(bytes::bits16(port));
    let e = Seq::<u8>::empty();
    let buf = m.wire(port).skip(4);
    assert(m.wire(port).take(4) =~= bytes::be32(bytes::bits32(m.type_code())));
    match m {
        Content::Cycle { cycle_start } => {
            let sec = bytes::be32(cycle_start.seconds);
            let nsec = bytes::be32(cycle_start.nanoseconds);
            assert(buf =~= p + sec + nsec);
            bytes::law_u32_round_trip(p, cycle_start.seconds, nsec);
            assert(buf =~= (p + sec) + nsec + e);
            bytes::law_u32_round_trip(p + sec, cycle_start.nanoseconds, e);
        },
        Content::Ping { key } => {
            assert(buf =~= p + bytes::be32(key) + e);
            bytes::law_u32_round_trip(p, key, e);
        },
    }
}

/// The members that are connected are called once each, in the order of their ports, with
/// what was set for them.
pub proof fn law_members_are_called_in_order(s: RateGroupState, n: nat)
    requires
        s.valid(),
        s.configured(),
        n <= RATE_GROUP_MEMBER_OUT_PORTS,
    ensures
        s.calls(n).len() <= n,
        forall|i: int|
            0 <= i < s.calls(n).len() ==> {
                &&& (#[trigger] s.calls(n)[i]) is RateGroupMemberOut
                &&& s.calls(n)[i]->port < n
                &&& s.members[s.calls(n)[i]->port as int]
                &&& s.calls(n)[i]->context == s.contexts[s.calls(n)[i]->port as int]
            },
        forall|i: int, j: int|
            0 <= i < j < s.calls(n).len() ==> (#[trigger] s.calls(n)[i])->port < (
            #[trigger] s.calls(n)[j])->port,
        forall|port: int|
            0 <= port < n && s.members[port] ==> #[trigger] s.calls(n).contains(
                Action::RateGroupMemberOut { port: port as usize, context: s.contexts[port] },
            ),
    decreases n,
{
    if n > 0 {
        let m = (n - 1) as nat;
        law_members_are_called_in_order(s, m);
        assert forall|port: int| 0 <= port < n && s.members[port] implies #[trigger] s.calls(
            n,
        ).contains(
            Action::RateGroupMemberOut { port: port as usize, context: s.contexts[port] },
        ) by {
            let call = Action::RateGroupMemberOut {
                port: port as usize,
                context: s.contexts[port],
            };
            if port < m {
                assert(s.calls(m).contains(call));
                let k = choose|k: int| 0 <= k < s.calls(m).len() && s.calls(m)[k] == call;
                assert(s.calls(n)[k] == call);
            } else {
                assert(s.calls(n)[s.calls(n).len() - 1] == call);
            }
        }
    }
}

/// The longest cycle is written the first time, and after that only when it grew: each
/// value written is larger than the one before.
pub proof fn law_longest_cycle_rises(s: RateGroupState, cycle_time: u32, time_status: u8)
    requires
        s.valid(),
    ensures
        s.ended(cycle_time, time_status).valid(),
        s.ended(cycle_time, time_status).max_time >= s.max_time,
        s.end_outputs(cycle_time, time_status).contains(
            Action::Tlm {
                id: CHANID_RG_MAX_TIME,
                value: s.ended(cycle_time, time_status).max_time,
            },
        ) <==> s.prev_max is None || cycle_time > s.prev_max->0,
        s.ended(cycle_time, time_status).prev_max == Some(
            s.ended(cycle_time, time_status).max_time,
        ),
{
    let longest = Action::Tlm {
        id: CHANID_RG_MAX_TIME,
        value: s.ended(cycle_time, time_status).max_time,
    };
    let o = s.end_outputs(cycle_time, time_status);
    if s.prev_max is None || cycle_time > s.prev_max->0 {
        if time_status != 0 && s.time_get_error_throttle.open() {
            assert(o[1] == longest);
        } else {
            assert(o[0] == longest);
        }
    }
}

/// A slipped cycle is always counted, and written. It is reported unless too many were
/// reported before it; every cycle that does not slip makes room for one more report.
pub proof fn law_slipped_cycles(s: RateGroupState, cycle_time: u32, time_status: u8)
    requires
        s.valid(),
    ensures
        s.ended(cycle_time, time_status).cycle_slips == (if s.cycle_started {
            counter::bumped(s.cycle_slips)
        } else {
            s.cycle_slips
        }),
        s.cycle_started ==> s.end_outputs(cycle_time, time_status).last() == (Action::Tlm {
            id: CHANID_RG_CYCLE_SLIPS,
            value: counter::bumped(s.cycle_slips),
        }),
        s.end_outputs(cycle_time, time_status).contains(
            Action::Event(RateGroupEvent::RateGroupCycleSlip { cycle: s.cycles }),
        ) <==> s.cycle_started && s.overrun_throttle < OVERRUN_THROTTLE,
        s.ended(cycle_time, time_status).overrun_throttle == (if s.cycle_started {
            if s.overrun_throttle < OVERRUN_THROTTLE {
                s.overrun_throttle + 1
            } else {
                s.overrun_throttle as int
            }
        } else if s.overrun_throttle > 0 {
            s.overrun_throttle - 1
        } else {
            0
        }),
        s.ended(cycle_time, time_status).overrun_throttle <= OVERRUN_THROTTLE,
{
    let o = s.end_outputs(cycle_time, time_status);
    let slip = Action::Event(RateGroupEvent::RateGroupCycleSlip { cycle: s.cycles });
    if s.cycle_started && s.overrun_throttle < OVERRUN_THROTTLE {
        let clock: int = if time_status != 0 && s.time_get_error_throttle.open() {
            1
        } else {
            0
        };
        let longest: int = if s.prev_max == Some(s.longest(cycle_time)) {
            0
        } else {
            1
        };
        assert(o[clock + longest] == slip);
    }
}

/// The end of a cycle counts it and keeps the longest time that one took. A tick that came
/// before the end makes it a slipped one, which is counted too; five of them can be reported,
/// and each cycle in time allows one more. What is put out comes in this order: that the clock
/// could not be read, while the limit allows; the longest time, unless it is the one written
/// last; a slip that may be reported; and the number of slips after one. Nothing else changes.
pub proof fn law_end_of_cycle(s: RateGroupState, cycle_time: u32, time_status: u8)
    requires
        s.valid(),
    ensures
        ({
            let after = s.ended(cycle_time, time_status);
            let out = s.end_outputs(cycle_time, time_status);
            let slipped = s.cycle_started;
            let longest = if cycle_time > s.max_time {
                cycle_time
            } else {
                s.max_time
            };
            let slips = ((s.cycle_slips + 1) % 0x1_0000_0000) as u32;
            let throttle = s.time_get_error_throttle;
            let reported = time_status != 0 && throttle.count < throttle.limit;
            let first = if reported {
                seq![Action::Event(RateGroupEvent::RateGroupTimeGetError { status: time_status })]
            } else {
                Seq::empty()
            };
            let second = if s.prev_max is None || longest > s.max_time {
                seq![Action::Tlm { id: 0, value: longest }]
            } else {
                Seq::empty()
            };
            let third = if slipped && s.overrun_throttle < 5 {
                seq![Action::Event(RateGroupEvent::RateGroupCycleSlip { cycle: s.cycles })]
            } else {
                Seq::empty()
            };
            let fourth = if slipped {
                seq![Action::Tlm { id: 1, value: slips }]
            } else {
                Seq::empty()
            };
            &&& out == first + second + third + fourth
            &&& after.cycles == (s.cycles + 1) % 0x1_0000_0000
            &&& after.max_time == longest
            &&& after.prev_max == Some(longest)
            &&& slipped ==> after.cycle_slips == slips && after.prev_slips == Some(slips)
            &&& !slipped ==> after.cycle_slips == s.cycle_slips && after.prev_slips == s.prev_slips
            &&& slipped && s.overrun_throttle < 5 ==> after.overrun_throttle == s.overrun_throttle
                + 1
            &&& slipped && s.overrun_throttle >= 5 ==> after.overrun_throttle == s.overrun_throttle
            &&& !slipped && s.overrun_throttle > 0 ==> after.overrun_throttle == s.overrun_throttle
                - 1
            &&& !slipped && s.overrun_throttle == 0 ==> after.overrun_throttle == 0
            &&& after.time_get_error_throttle.limit == throttle.limit
            &&& after.time_get_error_throttle.count == throttle.count + if reported {
                1int
            } else {
                0int
            }
            &&& after == (RateGroupState {
                cycles: after.cycles,
                max_time: after.max_time,
                prev_max: after.prev_max,
                cycle_slips: after.cycle_slips,
                prev_slips: after.prev_slips,
                overrun_throttle: after.overrun_throttle,
                time_get_error_throttle: after.time_get_error_throttle,
                ..s
            })
        }),
{
}

/// A message is a tick with the reading of the clock in two numbers of four bytes behind the
/// port, or a ping with its number there; anything shorter, and any other type, is none.
pub proof fn law_what_messages_say(msg_type: i32, buf: Seq<u8>)
    ensures
        ({
            let first = buf[2] * 16777216 + buf[3] * 65536 + buf[4] * 256 + buf[5];
            let second = buf[6] * 16777216 + buf[7] * 65536 + buf[8] * 256 + buf[9];
            content_of(msg_type, buf) == if msg_type == 1 && buf.len() >= 10 {
                Some(
                    Content::Cycle {
                        cycle_start: RawTime {
                            seconds: first as u32,
                            nanoseconds: second as u32,
                        },
                    },
                )
            } else if msg_type == 2 && buf.len() >= 6 {
                Some(Content::Ping { key: first as u32 })
            } else {
                None
            }
        }),
{
    bytes::law_numbers_read(buf, 0);
    bytes::law_numbers_read(buf, 2);
    bytes::law_numbers_read(buf, 6);
}

/// At first the group is not set up, no member is connected, no cycle has begun, every count is
/// zero and nothing was written.
pub proof fn law_starts_idle()
    ensures
        ({
            let s = RateGroupState::initial();
            &&& s.members.len() == 10
            &&& forall|i: int| 0 <= i < 10 ==> !#[trigger] s.members[i]
            &&& s.contexts.len() == 0
            &&& !s.cycle_started
            &&& s.cycles == 0 && s.max_time == 0 && s.overrun_throttle == 0 && s.cycle_slips == 0
            &&& s.prev_max is None && s.prev_slips is None
            &&& s.time_get_error_throttle == (EventThrottle { limit: 5, count: 0 })
        }),
{
}

/// Each event has a number of its own; that the group has started is for diagnosis and the
/// others are warnings. A slip is reported with the number of the cycle in four bytes, and a
/// clock that could not be read with a status in one.
pub proof fn law_events(e: RateGroupEvent)
    ensures
        e is RateGroupStarted <==> e.spec_id() == 0,
        e is RateGroupCycleSlip <==> e.spec_id() == 1,
        e is RateGroupTimeGetError <==> e.spec_id() == 2,
        e is RateGroupStarted <==> e.spec_severity() == LogSeverity::Diagnostic,
        !(e is RateGroupStarted) <==> e.spec_severity() == LogSeverity::WarningHi,
        e is RateGroupStarted ==> e.wire().len() == 0,
        e matches RateGroupEvent::RateGroupCycleSlip { cycle } ==> e.wire().len() == 4
            && bytes::sum_of_four(e.wire(), 0) == cycle,
        e matches RateGroupEvent::RateGroupTimeGetError { status } ==> e.wire() == seq![status],
{
    if e is RateGroupCycleSlip {
        bytes::law_most_significant_first(0, e->cycle);
    }
}

/// A cycle that begins calls every member that is connected, and no other, and then asks for its
/// end. No tick is noted yet: one that comes before the end is. Nothing else changes.
pub proof fn law_start_of_cycle(s: RateGroupState, cycle_start: RawTime, port: int)
    requires
        s.valid(),
        s.configured(),
        0 <= port < 10,
    ensures
        !s.begun().cycle_started,
        s.begun() == (RateGroupState { cycle_started: false, ..s }),
        s.begin_outputs(cycle_start).last() == (Action::FinishCycle { cycle_start }),
        s.members[port] <==> s.begin_outputs(cycle_start).contains(
            Action::RateGroupMemberOut { port: port as usize, context: s.contexts[port] },
        ),
        s.begin_outputs(cycle_start).drop_last() == s.calls(10),
{
    law_members_are_called_in_order(s, 10);
    let calls = s.calls(10);
    let out = s.begin_outputs(cycle_start);
    let call = Action::RateGroupMemberOut { port: port as usize, context: s.contexts[port] };
    assert(out.drop_last() =~= calls);
    if s.members[port] {
        assert(calls.contains(call));
        let i = choose|i: int| 0 <= i < calls.len() && calls[i] == call;
        assert(out[i] == call);
    }
    if out.contains(call) {
        let i = choose|i: int| 0 <= i < out.len() && out[i] == call;
        assert(i < calls.len());
        assert(calls[i] == call);
    }
}

} // verus!
