//! Engine for shared correspondence links: a registry of collaborators, each
//! tied to a remote repository and a local working copy, together with the
//! pure decision logic behind provisioning, synchronisation, status
//! reporting, renaming and removal.  All process spawning and file access
//! happens outside this crate; the functions here compute commands, reports
//! and registry updates from plain values.

use vstd::prelude::*;

mod errors;
pub mod appcfg;
pub mod cmd;
pub mod codec;
pub mod contact;
pub mod corrconfig;
pub mod draft;
pub mod link;
pub mod mailbox;
pub mod provision;
pub mod registry;
pub mod remove;
pub mod rename;
pub mod sync;
pub mod templates;
pub mod types;
pub mod textutil;

pub use errors::CollabError;

verus! {

/// The exit status an operation maps to at the process boundary:
/// 0 for success (including benign skips), 1 for an expected domain
/// failure, 2 for an environment failure.
pub fn exit_code_for(res: &Result<(), CollabError>) -> (code: u8)
    ensures
        res is Ok ==> code == 0,
        res matches Err(e) ==> code == e.exit_code_spec(),
{
    match res {
        Ok(()) => 0,
        Err(e) => e.exit_code(),
    }
}

} // verus!
