//! The options of one invocation, and the startup requirement: the
//! process must run under an elevated identity and must be able to
//! determine an unprivileged identity — explicit input or inherited
//! environment — before any privilege-dropping action executes. Either
//! absence is a fatal startup error, reported immediately.

use vstd::prelude::*;
use crate::result::ApplyError;

verus! {

/// The options of an apply: the configuration document, an explicit
/// unprivileged identity (overriding the inherited one), and whether
/// remote fetches are skipped.
#[derive(Debug)]
pub struct ApplyOpts {
    pub filename: String,
    pub uid: Option<u32>,
    pub gid: Option<u32>,
    pub skip_downloads: bool,
}

/// The command an invocation runs.
#[derive(Debug)]
pub enum Cmd {
    Apply(ApplyOpts),
}

/// The parsed invocation.
#[derive(Debug)]
pub struct Opts {
    pub cmd: Cmd,
}

/// The unprivileged identity an apply drops to: an explicitly given id
/// wins over the inherited one; neither present is a startup error.
pub open spec fn resolved_id(explicit: Option<u32>, inherited: Option<u32>) -> Option<u32> {
    if explicit is Some {
        explicit
    } else {
        inherited
    }
}

/// Check the startup requirement: the process runs elevated (id 0), and
/// both an unprivileged user and group id can be determined, each from
/// the explicit option or the inherited environment, the option winning.
/// Succeeds with the resolved pair exactly when all three hold; otherwise
/// the error names the first absence, and nothing runs.
pub fn check_startup(
    current_uid: u32,
    uid: Option<u32>,
    inherited_uid: Option<u32>,
    gid: Option<u32>,
    inherited_gid: Option<u32>,
) -> (r: Result<(u32, u32), ApplyError>)
    ensures
        current_uid != 0 ==> (r matches Err(ApplyError::Custom(m)) && m@
            == "compute apply requires root privileges"@),
        current_uid == 0 && resolved_id(uid, inherited_uid) is None ==> (r matches Err(
            ApplyError::Custom(m),
        ) && m@ == "either run compute apply with sudo or set the uid manually"@),
        current_uid == 0 && resolved_id(uid, inherited_uid) is Some && resolved_id(
            gid,
            inherited_gid,
        ) is None ==> (r matches Err(ApplyError::Custom(m)) && m@
            == "either run compute apply with sudo or set the gid manually"@),
        current_uid == 0 && resolved_id(uid, inherited_uid) is Some && resolved_id(
            gid,
            inherited_gid,
        ) is Some ==> r == Ok::<(u32, u32), ApplyError>(
            (
                resolved_id(uid, inherited_uid).unwrap(),
                resolved_id(gid, inherited_gid).unwrap(),
            ),
        ),
{
    if current_uid != 0 {
        return Err(ApplyError::Custom(String::from_str("compute apply requires root privileges")));
    }
    let u: u32 = match uid {
        Some(u) => u,
        None => match inherited_uid {
            Some(u) => u,
            None => {
                return Err(
                    ApplyError::Custom(
                        String::from_str("either run compute apply with sudo or set the uid manually"),
                    ),
                );
            },
        },
    };
    let g: u32 = match gid {
        Some(g) => g,
        None => match inherited_gid {
            Some(g) => g,
            None => {
                return Err(
                    ApplyError::Custom(
                        String::from_str("either run compute apply with sudo or set the gid manually"),
                    ),
                );
            },
        },
    };
    Ok((u, g))
}

} // verus!
