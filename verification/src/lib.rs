//! Scheduling core for one-shot timers: a registry of pending timers, the
//! validation that admits them, and the first-committer-wins protocol that
//! settles a cancellation against the timer's own deadline.

pub mod executor;
pub mod ident;
pub mod instant;
pub mod laws;
pub mod listing;
pub mod model;
pub mod registry;
pub mod text;
pub mod timer;
