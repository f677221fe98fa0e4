//! Command descriptions and the predicate-based idempotency gate for
//! scripts. The library only describes commands — name, arguments,
//! identity, working directory; the surrounding application spawns them
//! and reports their exit status back.

use vstd::prelude::*;
use crate::config::scripts::Script;

verus! {

/// Borrowed command options, as call sites assemble them ad hoc.
pub struct CmdOpts<'a> {
    pub name: &'a str,
    pub privileged: bool,
    pub args: &'a [&'a str],
    pub inherit_output: bool,
    pub cwd: Option<&'a str>,
}

impl<'a> Default for CmdOpts<'a> {
    /// A command runs privileged, with no arguments, output discarded,
    /// in the caller's working directory, unless a site says otherwise.
    fn default() -> (r: Self)
        ensures
            r.name@.len() == 0,
            r.privileged == true,
            r.args@.len() == 0,
            r.inherit_output == false,
            r.cwd is None,
    {
        proof {
            reveal_strlit("");
        }
        let empty: &[&str] = &[];
        CmdOpts { name: "", privileged: true, args: empty, inherit_output: false, cwd: None }
    }
}

/// An owned command description, as the planning functions produce it.
#[derive(Debug)]
pub struct CmdSpec {
    pub name: String,
    pub args: Vec<String>,
    pub privileged: bool,
    pub inherit_output: bool,
    pub cwd: Option<String>,
}

/// The command that probes whether a script's declared state already
/// holds: its test command under a shell, unprivileged, output discarded.
pub fn script_test_command(script: &Script) -> (c: CmdSpec)
    ensures
        c.name@ == "bash"@,
        c.args@.len() == 2,
        c.args@[0]@ == "-c"@,
        c.args@[1]@ == script.test@,
        c.privileged == false,
        c.inherit_output == false,
        c.cwd is None,
{
    let mut args: Vec<String> = Vec::new();
    args.push(String::from_str("-c"));
    args.push(script.test.clone());
    CmdSpec {
        name: String::from_str("bash"),
        args,
        privileged: false,
        inherit_output: false,
        cwd: None,
    }
}

/// The command that converges a script resource: its apply command under
/// a shell, privileged, output discarded.
pub fn script_apply_command(script: &Script) -> (c: CmdSpec)
    ensures
        c.name@ == "bash"@,
        c.args@.len() == 2,
        c.args@[0]@ == "-c"@,
        c.args@[1]@ == script.cmd@,
        c.privileged == true,
        c.inherit_output == false,
        c.cwd is None,
{
    let mut args: Vec<String> = Vec::new();
    args.push(String::from_str("-c"));
    args.push(script.cmd.clone());
    CmdSpec {
        name: String::from_str("bash"),
        args,
        privileged: true,
        inherit_output: false,
        cwd: None,
    }
}

/// The predicate-based gate: a script must be applied exactly when its
/// test command failed. Output is never diffed.
pub fn script_must_apply(test_succeeded: bool) -> (r: bool)
    ensures
        r == !test_succeeded,
{
    !test_succeeded
}

} // verus!
