//! Verified core of a two-versus-two lockstep arena server.
//!
//! The library holds the discrete part of the match: tick and guid
//! counters, each avatar's ammunition, timers and life cycle, the set of
//! live obstacles and bullets, and the scoring rules.  It also holds the
//! decisions of the connection protocol: how a connection identifies
//! itself, the rendezvous that keeps both competitors in lockstep, the
//! lateness ("debt") guard, and the framing of newline-delimited messages.
//!
//! Continuous geometry (positions, velocities, intersection tests) is
//! computed by the caller, which hands the library the outcome of each
//! test as plain booleans and guid lists.

pub mod rules;
pub mod player;
pub mod random;
pub mod gamestate;
pub mod guids;
pub mod session;
pub mod rendezvous;
pub mod pacing;
pub mod framing;
pub mod laws;
