//! Prioritized downlink queues with one outstanding send.
pub mod component;
pub mod effects;
pub mod laws;
pub mod messages;
pub mod model;
pub mod run_laws;
pub mod types;
