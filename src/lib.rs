//! Live position tracking for connected clients: a registry of where each
//! identity was last seen, per-connection sessions that decide what each
//! inbound report leads to, and the reward owed for movement at walking to
//! cycling speed, with a bonus near another tracked identity.
//!
//! Distances, times and coordinates are integers here (millimetres,
//! milliseconds, 10^-7 degree); the caller measures great-circle distances and
//! reads the clock.
pub mod friends;
pub mod keys;
pub mod position;
pub mod registry;
pub mod reward;
pub mod session;
