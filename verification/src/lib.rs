//! Build-time tool core: turns a script into a pre-initialized binary module
//! through a two-stage, self-invoking pipeline, and performs a throttled,
//! best-effort check for newer tool versions.
//!
//! The verified library holds the decision logic: the re-exec orchestration
//! protocol, the snapshot/optimize staging contract, and the update-check
//! cache/TTL rules. Process spawning, file and network I/O stay outside.
use vstd::prelude::*;

pub mod pipeline;
pub mod update;
pub mod version;

verus! {

/// Command-line options of the tool: the input script path and the output
/// module path, both carried as plain strings.
pub struct Options {
    pub input: String,
    pub output: String,
}

} // verus!
