//! Special values of the first header pointer of a multiplexing data unit.
use vstd::prelude::*;

verus! {

/// No packet starts in the unit.
pub const FHP_NO_PACKET_START: u16 = 0xFFFF;

/// The unit holds idle data only.
pub const FHP_IDLE_DATA_ONLY: u16 = 0xFFFE;

} // verus!
