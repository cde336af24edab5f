//! Dictionary enumerations and the frame context.
use vstd::prelude::*;

verus! {

/// How serious an event is.
#[derive(Debug, Clone, Copy, PartialEq, Eq, Structural)]
pub enum LogSeverity {
    /// Part of the system can no longer work.
    Fatal,
    /// A serious anomaly.
    WarningHi,
    /// A minor anomaly.
    WarningLo,
    /// A command was dispatched or completed.
    Command,
    /// An important activity.
    ActivityHi,
    /// A routine activity.
    ActivityLo,
    /// Detail for troubleshooting.
    Diagnostic,
}

/// The outcome of a command.
#[derive(Debug, Clone, Copy, PartialEq, Eq, Structural)]
pub enum CmdResponse {
    /// The command was carried out.
    OK,
    /// No component has registered the opcode.
    InvalidOpcode,
    /// An argument has a value that is not allowed.
    ValidationError,
    /// The arguments could not be read.
    FormatError,
    /// The command could not be carried out.
    ExecutionError,
    /// The component is busy.
    Busy,
}

impl CmdResponse {
    /// The number that stands for the response on the wire.
    pub open spec fn code(self) -> u8 {
        match self {
            CmdResponse::OK => 0,
            CmdResponse::InvalidOpcode => 1,
            CmdResponse::ValidationError => 2,
            CmdResponse::FormatError => 3,
            CmdResponse::ExecutionError => 4,
            CmdResponse::Busy => 5,
        }
    }

    /// The response that a number stands for, if any.
    pub open spec fn of_code(v: u8) -> Option<CmdResponse> {
        if v == 0 {
            Some(CmdResponse::OK)
        } else if v == 1 {
            Some(CmdResponse::InvalidOpcode)
        } else if v == 2 {
            Some(CmdResponse::ValidationError)
        } else if v == 3 {
            Some(CmdResponse::FormatError)
        } else if v == 4 {
            Some(CmdResponse::ExecutionError)
        } else if v == 5 {
            Some(CmdResponse::Busy)
        } else {
            None
        }
    }

    /// The number that stands for the response on the wire.
    pub fn as_repr(self) -> (r: u8)
        ensures
            r == self.code(),
    {
        match self {
            CmdResponse::OK => 0,
            CmdResponse::InvalidOpcode => 1,
            CmdResponse::ValidationError => 2,
            CmdResponse::FormatError => 3,
            CmdResponse::ExecutionError => 4,
            CmdResponse::Busy => 5,
        }
    }

    /// The response that a number stands for, if any.
    pub fn from_repr(v: u8) -> (r: Option<Self>)
        ensures
            r == CmdResponse::of_code(v),
    {
        if v == 0 {
            Some(CmdResponse::OK)
        } else if v == 1 {
            Some(CmdResponse::InvalidOpcode)
        } else if v == 2 {
            Some(CmdResponse::ValidationError)
        } else if v == 3 {
            Some(CmdResponse::FormatError)
        } else if v == 4 {
            Some(CmdResponse::ExecutionError)
        } else if v == 5 {
            Some(CmdResponse::Busy)
        } else {
            None
        }
    }
}

impl CmdResponse {
    /// What a text calls the response.
    pub open spec fn spec_label(self) -> Seq<char> {
        match self {
            CmdResponse::OK => "Ok"@,
            CmdResponse::InvalidOpcode => "InvalidOpcode"@,
            CmdResponse::ValidationError => "ValidationError"@,
            CmdResponse::FormatError => "FormatError"@,
            CmdResponse::ExecutionError => "ExecutionError"@,
            CmdResponse::Busy => "Busy"@,
        }
    }

    /// What a text calls the response.
    pub fn label(&self) -> (r: &'static str)
        ensures
            r@ == self.spec_label(),
    {
        match self {
            CmdResponse::OK => "Ok",
            CmdResponse::InvalidOpcode => "InvalidOpcode",
            CmdResponse::ValidationError => "ValidationError",
            CmdResponse::FormatError => "FormatError",
            CmdResponse::ExecutionError => "ExecutionError",
            CmdResponse::Busy => "Busy",
        }
    }
}

/// Whether the communication layer below can take more data.
#[derive(Debug, Clone, Copy, PartialEq, Eq, Structural)]
pub enum Success {
    /// The last transfer failed.
    Failure,
    /// The last transfer succeeded.
    Success,
}

impl Success {
    /// The number on the wire.
    pub open spec fn code(self) -> u8 {
        match self {
            Success::Failure => 0,
            Success::Success => 1,
        }
    }

    /// The number on the wire.
    pub fn as_repr(self) -> (r: u8)
        ensures
            r == self.code(),
    {
        match self {
            Success::Failure => 0,
            Success::Success => 1,
        }
    }

    /// The status that a number stands for, if any.
    pub open spec fn of_code(v: u8) -> Option<Success> {
        if v == 0 {
            Some(Success::Failure)
        } else if v == 1 {
            Some(Success::Success)
        } else {
            None
        }
    }

    /// The status that a number stands for, if any.
    pub fn from_repr(v: u8) -> (r: Option<Self>)
        ensures
            r == Success::of_code(v),
    {
        if v == 0 {
            Some(Success::Failure)
        } else if v == 1 {
            Some(Success::Success)
        } else {
            None
        }
    }
}

/// Whether a queued message could be taken apart and handled.
#[derive(Debug, Clone, Copy, PartialEq, Eq, Structural)]
pub enum MsgDispatchStatus {
    /// The message was handled.
    OK,
    /// The message is malformed or of an unknown type.
    Error,
}

/// The outcome of a file operation.
#[derive(Debug, Clone, Copy, PartialEq, Eq, Structural)]
pub enum FileStatus {
    /// The operation succeeded.
    OpOk,
    /// There is no such file.
    DoesntExist,
    /// The device is full.
    NoSpace,
    /// The file may not be accessed.
    NoPermission,
    /// A size is not valid.
    BadSize,
    /// The file is not open.
    NotOpened,
    /// The file exists already.
    FileExists,
    /// The operation is not supported.
    NotSupported,
    /// The file is open in another mode.
    InvalidMode,
    /// An argument is not valid.
    InvalidArgument,
    /// The system is out of resources.
    NoMoreResources,
    /// Any other error.
    OtherError,
}

impl FileStatus {
    /// The number that stands for the status in events.
    pub open spec fn code(self) -> u8 {
        match self {
            FileStatus::OpOk => 0,
            FileStatus::DoesntExist => 1,
            FileStatus::NoSpace => 2,
            FileStatus::NoPermission => 3,
            FileStatus::BadSize => 4,
            FileStatus::NotOpened => 5,
            FileStatus::FileExists => 6,
            FileStatus::NotSupported => 7,
            FileStatus::InvalidMode => 8,
            FileStatus::InvalidArgument => 9,
            FileStatus::NoMoreResources => 10,
            FileStatus::OtherError => 11,
        }
    }

    /// The number that stands for the status in events.
    pub fn as_repr(self) -> (r: u8)
        ensures
            r == self.code(),
    {
        match self {
            FileStatus::OpOk => 0,
            FileStatus::DoesntExist => 1,
            FileStatus::NoSpace => 2,
            FileStatus::NoPermission => 3,
            FileStatus::BadSize => 4,
            FileStatus::NotOpened => 5,
            FileStatus::FileExists => 6,
            FileStatus::NotSupported => 7,
            FileStatus::InvalidMode => 8,
            FileStatus::InvalidArgument => 9,
            FileStatus::NoMoreResources => 10,
            FileStatus::OtherError => 11,
        }
    }
}

/// Application process identifiers: what a packet carries.
#[derive(Debug, Clone, Copy, PartialEq, Eq, Structural)]
pub enum Apid {
    /// Commands.
    FwPacketCommand,
    /// Single telemetry channels.
    FwPacketTelem,
    /// Events.
    FwPacketLog,
    /// File transfer.
    FwPacketFile,
    /// Packetized telemetry.
    FwPacketPacketizedTlm,
    /// Data products.
    FwPacketDp,
    /// Idle packets.
    FwPacketIdle,
    /// File delivery protocol packets.
    FwPacketCfdp,
    /// Handshakes.
    FwPacketHand,
    /// Packets of unknown content.
    FwPacketUnknown,
    /// The idle packets of the space packet protocol.
    SppIdlePacket,
    /// No identifier has been assigned.
    InvalidUninitialized,
}

impl Apid {
    /// How many identifiers there are.
    pub const NUM_CONSTANTS: usize = 12;

    /// The number that stands for the identifier on the wire.
    pub open spec fn code(self) -> u16 {
        match self {
            Apid::FwPacketCommand => 0,
            Apid::FwPacketTelem => 1,
            Apid::FwPacketLog => 2,
            Apid::FwPacketFile => 3,
            Apid::FwPacketPacketizedTlm => 4,
            Apid::FwPacketDp => 5,
            Apid::FwPacketIdle => 6,
            Apid::FwPacketCfdp => 7,
            Apid::FwPacketHand => 0xFE,
            Apid::FwPacketUnknown => 0xFF,
            Apid::SppIdlePacket => 0x7FF,
            Apid::InvalidUninitialized => 0x800,
        }
    }

    /// The identifier that a number stands for; a number that stands for none means
    /// that no identifier has been assigned.
    pub open spec fn of_code(v: u16) -> Apid {
        if v == 0 {
            Apid::FwPacketCommand
        } else if v == 1 {
            Apid::FwPacketTelem
        } else if v == 2 {
            Apid::FwPacketLog
        } else if v == 3 {
            Apid::FwPacketFile
        } else if v == 4 {
            Apid::FwPacketPacketizedTlm
        } else if v == 5 {
            Apid::FwPacketDp
        } else if v == 6 {
            Apid::FwPacketIdle
        } else if v == 7 {
            Apid::FwPacketCfdp
        } else if v == 0xFE {
            Apid::FwPacketHand
        } else if v == 0xFF {
            Apid::FwPacketUnknown
        } else if v == 0x7FF {
            Apid::SppIdlePacket
        } else {
            Apid::InvalidUninitialized
        }
    }

    /// The position of the identifier in the list of all identifiers.
    pub open spec fn index(self) -> nat {
        match self {
            Apid::FwPacketCommand => 0,
            Apid::FwPacketTelem => 1,
            Apid::FwPacketLog => 2,
            Apid::FwPacketFile => 3,
            Apid::FwPacketPacketizedTlm => 4,
            Apid::FwPacketDp => 5,
            Apid::FwPacketIdle => 6,
            Apid::FwPacketCfdp => 7,
            Apid::FwPacketHand => 8,
            Apid::FwPacketUnknown => 9,
            Apid::SppIdlePacket => 10,
            Apid::InvalidUninitialized => 11,
        }
    }

    /// The number that stands for the identifier on the wire.
    pub fn as_repr(self) -> (r: u16)
        ensures
            r == self.code(),
    {
        match self {
            Apid::FwPacketCommand => 0,
            Apid::FwPacketTelem => 1,
            Apid::FwPacketLog => 2,
            Apid::FwPacketFile => 3,
            Apid::FwPacketPacketizedTlm => 4,
            Apid::FwPacketDp => 5,
            Apid::FwPacketIdle => 6,
            Apid::FwPacketCfdp => 7,
            Apid::FwPacketHand => 0xFE,
            Apid::FwPacketUnknown => 0xFF,
            Apid::SppIdlePacket => 0x7FF,
            Apid::InvalidUninitialized => 0x800,
        }
    }

    /// The identifier that a number stands for; a number that stands for none means
    /// that no identifier has been assigned.
    pub fn from_repr(v: u16) -> (r: Self)
        ensures
            r == Apid::of_code(v),
    {
        if v == 0 {
            Apid::FwPacketCommand
        } else if v == 1 {
            Apid::FwPacketTelem
        } else if v == 2 {
            Apid::FwPacketLog
        } else if v == 3 {
            Apid::FwPacketFile
        } else if v == 4 {
            Apid::FwPacketPacketizedTlm
        } else if v == 5 {
            Apid::FwPacketDp
        } else if v == 6 {
            Apid::FwPacketIdle
        } else if v == 7 {
            Apid::FwPacketCfdp
        } else if v == 0xFE {
            Apid::FwPacketHand
        } else if v == 0xFF {
            Apid::FwPacketUnknown
        } else if v == 0x7FF {
            Apid::SppIdlePacket
        } else {
            Apid::InvalidUninitialized
        }
    }
}

/// The protocol of a packet.
#[derive(Debug, Clone, Copy, PartialEq, Eq, Structural)]
pub enum Pvn {
    /// Space packets.
    SpacePacketProtocol,
    /// Encapsulation packets.
    EncapsulationPacketProtocol,
    /// No protocol has been assigned.
    InvalidUninitialized,
}

/// What travels beside a packet on its way through the framing layers.
#[derive(Debug, Clone, Copy, PartialEq, Eq, Structural)]
pub struct FrameContext {
    /// The downlink queue that the packet came from.
    pub com_queue_index: i16,
    /// What the packet carries.
    pub apid: Apid,
    /// The sequence count of the packet.
    pub sequence_count: u16,
    /// The virtual channel.
    pub vc_id: u8,
    /// Whether the packet has a secondary header.
    pub has_sec_hdr: bool,
    /// Segmentation flags of the packet.
    pub sequence_flags: u8,
    /// The protocol of the packet.
    pub pvn: Pvn,
    /// The security association that the packet is sent under.
    pub sa_index: u16,
    /// Whether the packet is not to wait for others.
    pub send_now: bool,
}

impl FrameContext {
    /// The context of a packet of which nothing is known.
    pub open spec fn initial() -> FrameContext {
        FrameContext {
            com_queue_index: 0,
            apid: Apid::FwPacketUnknown,
            sequence_count: 0,
            vc_id: 1,
            has_sec_hdr: false,
            sequence_flags: 3,
            pvn: Pvn::SpacePacketProtocol,
            sa_index: 0,
            send_now: false,
        }
    }
}

impl Default for FrameContext {
    fn default() -> (r: Self)
        ensures
            r == FrameContext::initial(),
    {
        FrameContext {
            com_queue_index: 0,
            apid: Apid::FwPacketUnknown,
            sequence_count: 0,
            vc_id: 1,
            has_sec_hdr: false,
            sequence_flags: 3,
            pvn: Pvn::SpacePacketProtocol,
            sa_index: 0,
            send_now: false,
        }
    }
}

/// An identifier survives a trip over the wire, and different identifiers have
/// different positions.
pub proof fn law_apid_round_trip(a: Apid, b: Apid)
    ensures
        Apid::of_code(a.code()) == a,
        a.index() < Apid::NUM_CONSTANTS,
        a.index() == b.index() ==> a == b,
{
}

/// A command response survives a trip over the wire.
pub proof fn law_cmd_response_round_trip(r: CmdResponse, v: u8)
    ensures
        CmdResponse::of_code(r.code()) == Some(r),
        CmdResponse::of_code(v) is Some ==> CmdResponse::of_code(v)->0.code() == v,
{
}

/// The numbers of the responses are those from 0 to 5, in this order: carried out, unknown
/// opcode, an argument that is not allowed, arguments that cannot be read, not carried out,
/// busy.
pub proof fn law_cmd_response_numbers(v: u8)
    ensures
        CmdResponse::of_code(v) is Some <==> v <= 5,
        v == 0 <==> CmdResponse::of_code(v) == Some(CmdResponse::OK),
        v == 1 <==> CmdResponse::of_code(v) == Some(CmdResponse::InvalidOpcode),
        v == 2 <==> CmdResponse::of_code(v) == Some(CmdResponse::ValidationError),
        v == 3 <==> CmdResponse::of_code(v) == Some(CmdResponse::FormatError),
        v == 4 <==> CmdResponse::of_code(v) == Some(CmdResponse::ExecutionError),
        v == 5 <==> CmdResponse::of_code(v) == Some(CmdResponse::Busy),
{
}

/// A status survives a trip over the wire. Failure is 0 and success is 1; other numbers are
/// no status.
pub proof fn law_success_round_trip(s: Success, v: u8)
    ensures
        Success::of_code(s.code()) == Some(s),
        Success::of_code(v) is Some <==> v <= 1,
        Success::of_code(v) == Some(Success::Success) <==> v == 1,
{
}

/// The numbers of what a packet can carry: eight from 0 on, three special ones, and one that
/// no packet has room for, which stands for everything else.
pub proof fn law_apid_numbers(v: u16)
    ensures
        v == 0 <==> Apid::of_code(v) == Apid::FwPacketCommand,
        v == 1 <==> Apid::of_code(v) == Apid::FwPacketTelem,
        v == 2 <==> Apid::of_code(v) == Apid::FwPacketLog,
        v == 3 <==> Apid::of_code(v) == Apid::FwPacketFile,
        v == 4 <==> Apid::of_code(v) == Apid::FwPacketPacketizedTlm,
        v == 5 <==> Apid::of_code(v) == Apid::FwPacketDp,
        v == 6 <==> Apid::of_code(v) == Apid::FwPacketIdle,
        v == 7 <==> Apid::of_code(v) == Apid::FwPacketCfdp,
        v == 0xFE <==> Apid::of_code(v) == Apid::FwPacketHand,
        v == 0xFF <==> Apid::of_code(v) == Apid::FwPacketUnknown,
        v == 0x7FF <==> Apid::of_code(v) == Apid::SppIdlePacket,
        8 <= v < 0xFE || 0xFF < v < 0x7FF || v > 0x7FF <==> Apid::of_code(v)
            == Apid::InvalidUninitialized,
{
}

/// Each outcome of a file operation has a number of its own.
pub proof fn law_file_status_numbers(s: FileStatus)
    ensures
        s is OpOk <==> s.code() == 0,
        s is DoesntExist <==> s.code() == 1,
        s is NoSpace <==> s.code() == 2,
        s is NoPermission <==> s.code() == 3,
        s is BadSize <==> s.code() == 4,
        s is NotOpened <==> s.code() == 5,
        s is FileExists <==> s.code() == 6,
        s is NotSupported <==> s.code() == 7,
        s is InvalidMode <==> s.code() == 8,
        s is InvalidArgument <==> s.code() == 9,
        s is NoMoreResources <==> s.code() == 10,
        s is OtherError <==> s.code() == 11,
{
}

/// Of a packet of which nothing is known it is taken that it is a space packet on the first
/// virtual channel, not segmented, without a secondary header, and may wait for others.
pub proof fn law_context_of_an_unknown_packet()
    ensures
        ({
            let c = FrameContext::initial();
            &&& c.com_queue_index == 0
            &&& c.apid == Apid::FwPacketUnknown
            &&& c.sequence_count == 0
            &&& c.vc_id == 1
            &&& !c.has_sec_hdr
            &&& c.sequence_flags == 3
            &&& c.pvn == Pvn::SpacePacketProtocol
            &&& c.sa_index == 0
            &&& !c.send_now
        }),
{
}

} // verus!
