//! Flight-software services: CCSDS framing, command dispatch and sequencing,
//! downlink queueing, logging, buffer management and rate groups.
//!
//! Every component is a plain state machine. A handler takes the values that
//! arrive on a port, updates the component and appends to a list of outputs the
//! port calls the component makes, in order. The contracts say exactly which.
pub mod active_rate_group;
pub mod buffer_manager;
pub mod ccsds;
pub mod cmd_dispatcher;
pub mod cmd_sequencer;
pub mod com_logger;
pub mod com_queue;
pub mod com_stub;
pub mod fw;
