//! Dispatch of commands to the components that registered them, and of their responses to
//! the callers.
pub mod component;
pub mod dictionary;
pub mod effects;
pub mod event_laws;
pub mod laws;
pub mod messages;
pub mod model;
pub mod tracker;
