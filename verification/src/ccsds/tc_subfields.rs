//! Fields of the telecommand transfer frame header words.
use vstd::prelude::*;

verus! {

/// The version.
pub const FRAME_VERSION_MASK: u16 = 0xC000;

/// The bypass flag.
pub const BYPASS_FLAG_MASK: u16 = 0x2000;

/// The control command flag.
pub const CONTROL_FLAG_MASK: u16 = 0x1000;

/// The spare bits.
pub const RESERVED_MASK: u16 = 0x0C00;

/// The spacecraft.
pub const SPACECRAFT_ID_MASK: u16 = 0x03FF;

/// How far the bypass flag is shifted.
pub const BYPASS_FLAG_OFFSET: u32 = 13;

/// The virtual channel.
pub const VC_ID_MASK: u16 = 0xFC00;

/// The length.
pub const FRAME_LENGTH_MASK: u16 = 0x03FF;

/// How far the virtual channel is shifted.
pub const VC_ID_OFFSET: u32 = 10;

} // verus!
