//! Fields of the space packet header words.
use vstd::prelude::*;

verus! {

/// The version, in the identification word.
pub const PVN_MASK: u16 = 0xE000;

/// The type, in the identification word.
pub const PKT_TYPE_MASK: u16 = 0x1000;

/// The secondary header flag, in the identification word.
pub const SEC_HDR_MASK: u16 = 0x0800;

/// The application, in the identification word.
pub const APID_MASK: u16 = 0x07FF;

/// How far the version is shifted.
pub const PVN_OFFSET: u32 = 13;

/// How far the type is shifted.
pub const PKT_TYPE_OFFSET: u32 = 12;

/// How far the secondary header flag is shifted.
pub const SEC_HDR_OFFSET: u32 = 11;

/// The segmentation flags, in the sequence control word.
pub const SEQ_FLAGS_MASK: u16 = 0xC000;

/// The count, in the sequence control word.
pub const SEQ_COUNT_MASK: u16 = 0x3FFF;

/// How far the segmentation flags are shifted.
pub const SEQ_FLAGS_OFFSET: u32 = 14;

/// How many bits the application takes.
pub const APID_WIDTH: u32 = 11;

/// How many bits the count takes.
pub const SEQ_COUNT_WIDTH: u32 = 14;

} // verus!
