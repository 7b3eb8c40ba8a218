//! Per-guild playback queue coordination for a voice-enabled chat bot.
//!
//! Users enqueue audio requests; the coordinator decides what plays next,
//! when to speculatively preload the next entry, and how to discard results
//! that a race (skip, stop, reordering) has made stale. Network resolution
//! and voice-connection work run outside the per-guild lock; their outcomes
//! come back as tagged commit messages that are checked for staleness before
//! any state is mutated.

pub mod commands;
pub mod errors;
pub mod laws;
pub mod list;
pub mod music;
pub mod registry;
pub mod resolve;
