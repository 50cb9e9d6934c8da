//! Tracks live multiplayer lobbies and mirrors a filtered subset of them into
//! a chat platform as auto-updating notification messages.
//!
//! The library holds the verified core: selecting eligible lobby snapshots,
//! rendering notification fields, classifying remote responses, throttling by
//! rate-limit headers, and maintaining the lobby-to-message record table. The
//! surrounding binary performs the HTTP calls, the persistence, and the
//! suspensions that these functions decide on.

pub mod classes;
pub mod digits;
pub mod eligibility;
pub mod engine;
pub mod fields;
pub mod payload;
pub mod ratelimit;
pub mod steam;
pub mod webhook;
