//! Fields of the telemetry transfer frame header words.
use vstd::prelude::*;

verus! {

/// How far the version is shifted.
pub const FRAME_VERSION_OFFSET: u32 = 14;

/// How far the spacecraft is shifted.
pub const SPACECRAFT_ID_OFFSET: u32 = 4;

/// How far the virtual channel is shifted.
pub const VIRTUAL_CHANNEL_ID_OFFSET: u32 = 1;

/// How far the segment length is shifted.
pub const SEG_LENGTH_OFFSET: u32 = 11;

/// The version.
pub const FRAME_VERSION_MASK: u16 = 0xC000;

/// The spacecraft.
pub const SPACECRAFT_ID_MASK: u16 = 0x3FF0;

/// The virtual channel.
pub const VIRTUAL_CHANNEL_ID_MASK: u16 = 0x000E;

/// The operational control field flag.
pub const OCF_FLAG_MASK: u16 = 0x0001;

/// The secondary header flag, in the data field status.
pub const SEC_HDR_FLAG_MASK: u16 = 0x8000;

/// The synchronization flag, in the data field status.
pub const SYNC_FLAG_MASK: u16 = 0x4000;

/// The packet order flag, in the data field status.
pub const PACKET_ORDER_FLAG_MASK: u16 = 0x2000;

/// The segment length, in the data field status.
pub const SEG_LENGTH_MASK: u16 = 0x1800;

/// The first header pointer, in the data field status.
pub const FIRST_HEADER_POINTER_MASK: u16 = 0x07FF;

} // verus!
