//! Verified core of a PTY-backed command-execution service.
//!
//! The library holds the logic of the service: the denylist matcher, the
//! in-memory job registry with its invariants, the pure decision functions of
//! the execution scheduler and background monitor, the sudo keep-alive
//! helpers, and the text shaping of tool results.  Process spawning, PTY
//! plumbing and the RPC transport live outside, in the thin application
//! layer, which drives these functions with plain values.

pub mod denylist;
pub mod detect;
pub mod jobs;
pub mod report;
pub mod scheduler;
pub mod sudo;
pub mod text;

use vstd::prelude::*;

verus! {

} // verus!
