//! Script resources: idempotency is decided by a test command's exit
//! status, never by diffing output.

use vstd::prelude::*;

verus! {

/// One declared script: `test` probes whether the host already satisfies
/// it, `cmd` converges the host when the probe fails.
#[derive(Debug, Clone)]
pub struct Script {
    pub name: String,
    pub test: String,
    pub cmd: String,
    pub privileged: bool,
}

/// The script phase of one configuration node.
pub type Config = Vec<Script>;

} // verus!
