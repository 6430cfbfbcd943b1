//! Renaming a link: validation, the optional remote rename, and re-keying
//! the registry entry.  Re-keying removes the old id and inserts the new
//! one with every other field preserved, except the remote reference when
//! the remote was renamed too.

use vstd::prelude::*;
use crate::CollabError;
use crate::cmd::{push_arg, push_arg_string};
use crate::link::{auto_repo_spec, Collaborator, LinkView};
use crate::registry::{
    contains_id, index_of, insert_sorted, lemma_contains_after_remove, lemma_index_of, Registry,
};
use crate::textutil::{lower, to_lower};

verus! {

/// Why a rename is rejected, when it is: the old id must be registered
/// and the new id must not be.
pub open spec fn rename_error_spec(
    reg: Seq<LinkView>,
    old_id: Seq<char>,
    new_id: Seq<char>,
) -> Option<CollabError> {
    if !contains_id(reg, old_id) {
        Some(CollabError::NotFound)
    } else if contains_id(reg, new_id) {
        Some(CollabError::AlreadyExists)
    } else {
        None
    }
}

/// The entry under its new key: the id replaced, the remote reference as
/// decided, everything else carried over.
pub open spec fn rekeyed(l: LinkView, new_id: Seq<char>, new_repo: Seq<char>) -> LinkView {
    LinkView { id: new_id, labels: l.labels, repo: new_repo, name: l.name, account: l.account }
}

/// Validates a rename.  Fails — before any external call — with
/// `NotFound` when the old id is unregistered, and with `AlreadyExists`
/// when the new id is taken.
pub fn rename_check(reg: &Registry, old_name: &str, new_name: &str) -> (r: Result<
    (),
    CollabError,
>)
    ensures
        r is Ok <==> rename_error_spec(reg@, old_name@, new_name@) is None,
        r matches Err(e) ==> Some(e) == rename_error_spec(reg@, old_name@, new_name@),
{
    if !reg.contains(old_name) {
        return Err(CollabError::NotFound);
    }
    if reg.contains(new_name) {
        return Err(CollabError::AlreadyExists);
    }
    Ok(())
}

/// A rename whose validation fails changes nothing: with an unregistered
/// old id it is `NotFound`, with a taken new id `AlreadyExists`, and in
/// both cases the registry is only read, never written, so it is
/// byte-identical to its pre-call state when saved again.
pub proof fn lemma_rename_rejected(reg: Seq<LinkView>, old_id: Seq<char>, new_id: Seq<char>)
    ensures
        !contains_id(reg, old_id) ==> rename_error_spec(reg, old_id, new_id) == Some(
            CollabError::NotFound,
        ),
        contains_id(reg, old_id) && contains_id(reg, new_id) ==> rename_error_spec(
            reg,
            old_id,
            new_id,
        ) == Some(CollabError::AlreadyExists),
{
}

/// Whether the remote is renamed, and to what: only when asked and when a
/// remote reference exists.  Yields the `gh repo rename` command and the
/// recomputed reference — `{owner}/to-{new id lower-cased}`, or the bare
/// new name when the owner identity is unavailable.
pub fn rename_remote_decision(
    rename_repo: bool,
    repo: &str,
    owner_gh: &str,
    new_name: &str,
) -> (r: Option<(Vec<String>, String)>)
    ensures
        (rename_repo && repo@.len() > 0) <==> r is Some,
        r matches Some(p) ==> ({
            &&& p.0.deep_view() == seq!["gh"@, "repo"@, "rename"@, "to-"@ + lower(new_name@),
                "-R"@, repo@, "--yes"@]
            &&& owner_gh@.len() > 0 ==> p.1@ == auto_repo_spec(owner_gh@, new_name@)
            &&& owner_gh@.len() == 0 ==> p.1@ == "to-"@ + lower(new_name@)
        }),
{
    if !(rename_repo && !repo.is_empty()) {
        return None;
    }
    let low = to_lower(new_name);
    let mut new_repo_name = String::from_str("to-");
    new_repo_name.append(low.as_str());
    let mut v: Vec<String> = Vec::new();
    push_arg(&mut v, "gh");
    push_arg(&mut v, "repo");
    push_arg(&mut v, "rename");
    push_arg_string(&mut v, new_repo_name.clone());
    push_arg(&mut v, "-R");
    push_arg(&mut v, repo);
    push_arg(&mut v, "--yes");
    proof {
        assert(v.deep_view() =~= seq!["gh"@, "repo"@, "rename"@, "to-"@ + lower(new_name@), "-R"@,
            repo@, "--yes"@]);
    }
    let new_repo = if owner_gh.is_empty() {
        new_repo_name
    } else {
        let mut r = String::from_str(owner_gh);
        r.append("/");
        r.append(new_repo_name.as_str());
        proof {
            reveal_strlit("/");
            reveal_strlit("to-");
            reveal_strlit("/to-");
            assert("/"@ + "to-"@ =~= "/to-"@);
            assert(r@ =~= auto_repo_spec(owner_gh@, new_name@));
        }
        r
    };
    Some((v, new_repo))
}

/// Re-keys the registry entry: removes the old id and inserts the new one
/// with all other fields preserved except the remote reference, which is
/// set as decided.  Fails, leaving the registry unchanged, exactly as
/// `rename_check` does.
pub fn rename_registry(
    reg: &mut Registry,
    old_name: &str,
    new_name: &str,
    new_repo: String,
) -> (r: Result<(), CollabError>)
    requires
        old(reg).wf(),
    ensures
        final(reg).wf(),
        r is Ok <==> rename_error_spec(old(reg)@, old_name@, new_name@) is None,
        r matches Err(e) ==> Some(e) == rename_error_spec(old(reg)@, old_name@, new_name@)
            && final(reg)@ == old(reg)@,
        r is Ok ==> final(reg)@ == insert_sorted(
            old(reg)@.remove(index_of(old(reg)@, old_name@)),
            rekeyed(old(reg)@[index_of(old(reg)@, old_name@)], new_name@, new_repo@),
        ),
{
    if !reg.contains(old_name) {
        return Err(CollabError::NotFound);
    }
    if reg.contains(new_name) {
        return Err(CollabError::AlreadyExists);
    }
    proof {
        lemma_index_of(reg@, old_name@);
    }
    let removed = reg.remove(old_name);
    match removed {
        Some(c) => {
            proof {
                lemma_contains_after_remove(old(reg)@, index_of(old(reg)@, old_name@), new_name@);
            }
            let updated = Collaborator {
                labels: c.labels,
                repo: new_repo,
                github_user: String::from_str(new_name),
                name: c.name,
                account: c.account,
            };
            reg.insert(updated);
            Ok(())
        },
        None => Err(CollabError::NotFound),
    }
}

} // verus!
