//! Session engine for a turn-based acronym party game.
//!
//! One player per round is the judge; the others submit word lists matching a
//! randomly drawn letter prompt, the judge picks a winner, and scores
//! accumulate until every player has judged twice.  The crate holds the
//! authoritative game state machine, the client/server message protocol, the
//! round and timer lifecycle, judge rotation, scoring, and the session
//! registry.  Transport (sockets, serialization, task scheduling) lives
//! outside; it hands the engine plain values and carries its effects out.

pub mod client_state;
pub mod constants;
pub mod engine;
pub mod letter_bag;
pub mod prompts;
pub mod random;
pub mod scoring;
pub mod sessions;
pub mod state;
pub mod strutil;
pub mod styles;
pub mod timer;
pub mod transport;
pub mod types;
