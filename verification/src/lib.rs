//! A verified core for a repository line-count service.
//!
//! Given the URL of a git repository, the service probes the URL, clones the
//! repository shallowly into a fresh workspace, scans it for per-language
//! line counts, aggregates the counts into a response, and removes the
//! workspace again.  This crate holds everything about that pipeline that is
//! pure computation: the statistics aggregation, the failure taxonomy, and
//! the pipeline's state machine.  The surrounding process — HTTP handling,
//! the network probe, the clone subprocess, the directory scan and the
//! workspace itself — performs each action the state machine asks for and
//! feeds the outcome back as an event.

pub mod error;
pub mod pipeline;
pub mod stats;

use vstd::prelude::*;

verus! {

/// The fixed greeting of the health probe.  It is computed from nothing,
/// so it can never fail and touches neither the filesystem nor the network.
pub fn health() -> (r: String)
    ensures
        r@ == "Hello, developer."@,
{
    String::from_str("Hello, developer.")
}

} // verus!
