//! The state machine: events in, state changes and effects out.
//!
//! The machine is pure and synchronous. It never waits, spawns or publishes;
//! the host carries out the effects it returns, in order.

pub mod entry;
pub mod event;
pub mod inner;
pub mod laws;
pub mod model;
pub mod table;
pub mod upkeep;
