//! Removing a link: unlinking decisions, unconditional registry removal,
//! and the guarded deletion of the remote repository, which needs an
//! explicit affirmative confirmation and treats a decline as a normal
//! outcome.

use vstd::prelude::*;
use crate::CollabError;
use crate::cmd::push_arg;
use crate::link::{Collaborator, LinkView};
use crate::registry::{contains_id, index_of, Registry};

verus! {

/// The remote is deleted only when deletion was requested, a remote
/// reference is known, and the operator confirmed.
pub open spec fn should_delete_spec(
    delete_repo: bool,
    repo: Seq<char>,
    confirmed: bool,
) -> bool {
    delete_repo && repo.len() > 0 && confirmed
}

/// Decides whether to issue the remote deletion.
pub fn should_delete_remote(delete_repo: bool, repo: &str, confirmed: bool) -> (b: bool)
    ensures
        b == should_delete_spec(delete_repo, repo@, confirmed),
{
    delete_repo && !repo.is_empty() && confirmed
}

/// Declining the confirmation always keeps the remote: no deletion is
/// issued with `confirmed` false, whatever else was requested — while the
/// registry entry is removed all the same, since `remove_registry` does
/// not consult the confirmation.
pub proof fn lemma_decline_keeps_remote(delete_repo: bool, repo: Seq<char>)
    ensures
        !should_delete_spec(delete_repo, repo, false),
{
}

/// Removes the entry with the given id from the registry and hands it
/// back; fails with `NotFound`, leaving the registry unchanged, iff the
/// id is unregistered.
pub fn remove_registry(reg: &mut Registry, id: &str) -> (r: Result<Collaborator, CollabError>)
    requires
        old(reg).wf(),
    ensures
        final(reg).wf(),
        !contains_id(old(reg)@, id@) ==> (r == Result::<Collaborator, CollabError>::Err(
            CollabError::NotFound,
        ) && final(reg)@ == old(reg)@),
        contains_id(old(reg)@, id@) ==> (r matches Ok(c) && c@ == old(reg)@[index_of(
            old(reg)@,
            id@,
        )] && final(reg)@ == old(reg)@.remove(index_of(old(reg)@, id@))),
{
    match reg.remove(id) {
        Some(c) => Ok(c),
        None => Err(CollabError::NotFound),
    }
}

/// `gh repo delete {repo} --yes` — the destructive, irreversible remote
/// deletion; issued only behind `should_delete_remote`.
pub fn delete_repo_cmd(repo: &str) -> (r: Vec<String>)
    ensures
        r.deep_view() == seq!["gh"@, "repo"@, "delete"@, repo@, "--yes"@],
{
    let mut v: Vec<String> = Vec::new();
    push_arg(&mut v, "gh");
    push_arg(&mut v, "repo");
    push_arg(&mut v, "delete");
    push_arg(&mut v, repo);
    push_arg(&mut v, "--yes");
    proof {
        assert(v.deep_view() =~= seq!["gh"@, "repo"@, "delete"@, repo@, "--yes"@]);
    }
    v
}

/// The version-control bookkeeping directory of a linked working copy:
/// `.git/modules/{path}`.
pub fn modules_path(sub_path: &str) -> (r: String)
    ensures
        r@ == ".git/modules/"@ + sub_path@,
{
    let mut r = String::from_str(".git/modules/");
    r.append(sub_path);
    r
}

} // verus!
