//! A log of packets in files that are closed when they are full.
pub mod component;
pub mod dictionary;
pub mod effects;
pub mod event_laws;
pub mod laws;
pub mod messages;
pub mod model;
pub mod validation;
