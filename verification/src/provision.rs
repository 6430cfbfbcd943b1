//! Provisioning a new link: validation, derived names, and the external
//! commands of the creation sequence (remote create, access grant, seed,
//! local linkage).  The steps are issued in order with no compensation: a
//! later step's failure leaves the earlier steps' effects in place, and a
//! retry is guarded only by the duplicate-id and path checks here.

use vstd::prelude::*;
use crate::CollabError;
use crate::cmd::push_arg;
use crate::link::{auto_repo, auto_repo_spec, collab_dir, collab_dir_spec, Collaborator, LinkView};
use crate::registry::{contains_id, insert_sorted, lemma_insert_sorted_contains, Registry};
use crate::textutil::{clone_strings, lower};

verus! {

/// The full remote reference a new link gets: `{org}/to-{id lower-cased}`,
/// where an empty requested organisation falls back to the owner identity.
pub open spec fn repo_full_spec(org: Seq<char>, owner: Seq<char>, id: Seq<char>) -> Seq<char> {
    auto_repo_spec(if org.len() == 0 { owner } else { org }, id)
}

/// A new `add` is rejected exactly when the id is already registered or
/// the intended working-copy path already exists on disk.
pub open spec fn add_rejected(reg: Seq<LinkView>, id: Seq<char>, path_exists: bool) -> bool {
    contains_id(reg, id) || path_exists
}

/// What a validated `add` will do: the derived remote reference, the
/// local working-copy path, and the registry entry to persist.
pub struct AddPlan {
    pub repo_full: String,
    pub sub_path: String,
    pub entry: Collaborator,
}

/// Validates a new link and derives its names.  Fails with
/// `AlreadyExists` — before any external call — iff the id is already
/// registered or the working-copy path is already occupied.
pub fn add_check(
    reg: &Registry,
    github_user: &str,
    labels: &Vec<String>,
    name: &str,
    account: &str,
    org: &str,
    owner_gh: &str,
    data_dir: &str,
    path_exists: bool,
) -> (r: Result<AddPlan, CollabError>)
    ensures
        r is Err <==> add_rejected(reg@, github_user@, path_exists),
        r matches Err(e) ==> e == CollabError::AlreadyExists,
        r matches Ok(p) ==> ({
            &&& p.repo_full@ == repo_full_spec(org@, owner_gh@, github_user@)
            &&& p.sub_path@ == collab_dir_spec(data_dir@, github_user@)
            &&& p.entry@ == (LinkView {
                id: github_user@,
                labels: labels.deep_view(),
                repo: repo_full_spec(org@, owner_gh@, github_user@),
                name: name@,
                account: account@,
            })
        }),
{
    if reg.contains(github_user) {
        return Err(CollabError::AlreadyExists);
    }
    if path_exists {
        return Err(CollabError::AlreadyExists);
    }
    let org_eff: &str = if org.is_empty() {
        owner_gh
    } else {
        org
    };
    let repo_full = auto_repo(org_eff, github_user);
    let entry = Collaborator {
        labels: clone_strings(labels),
        repo: repo_full.clone(),
        github_user: String::from_str(github_user),
        name: String::from_str(name),
        account: String::from_str(account),
    };
    let sub_path = collab_dir(data_dir, &entry);
    Ok(AddPlan { repo_full, sub_path, entry })
}

/// Once a link is registered, a second `add` of the same id is rejected
/// as already existing, whatever the disk says, so the registry keeps the
/// value the first call gave it: validation is pure and the entry is only
/// ever inserted after a validation that succeeded.
pub proof fn lemma_add_then_add(reg: Seq<LinkView>, l: LinkView, path_exists: bool)
    ensures
        add_rejected(insert_sorted(reg, l), l.id, path_exists),
{
    lemma_insert_sorted_contains(reg, l, l.id);
}

/// `gh repo create {repo} --public|--private --confirm`
pub fn create_repo_cmd(repo_full: &str, public: bool) -> (r: Vec<String>)
    ensures
        r.deep_view() == seq!["gh"@, "repo"@, "create"@, repo_full@] + (if public {
            seq!["--public"@]
        } else {
            seq!["--private"@]
        }) + seq!["--confirm"@],
{
    let mut v: Vec<String> = Vec::new();
    push_arg(&mut v, "gh");
    push_arg(&mut v, "repo");
    push_arg(&mut v, "create");
    push_arg(&mut v, repo_full);
    if public {
        push_arg(&mut v, "--public");
    } else {
        push_arg(&mut v, "--private");
    }
    push_arg(&mut v, "--confirm");
    proof {
        if public {
            assert(v.deep_view() =~= seq!["gh"@, "repo"@, "create"@, repo_full@]
                + seq!["--public"@] + seq!["--confirm"@]);
        } else {
            assert(v.deep_view() =~= seq!["gh"@, "repo"@, "create"@, repo_full@]
                + seq!["--private"@] + seq!["--confirm"@]);
        }
    }
    v
}

/// The access grant: `gh api repos/{repo}/collaborators/{user} -X PUT
/// --silent`, or nothing when token-based access was requested — then the
/// engine issues no invitation and the operator hands out instructions
/// instead.
pub fn invite_cmd(repo_full: &str, github_user: &str, pat: bool) -> (r: Option<Vec<String>>)
    ensures
        pat ==> r is None,
        !pat ==> (r matches Some(v) && v.deep_view() == seq!["gh"@, "api"@, "repos/"@ + repo_full@
            + "/collaborators/"@ + github_user@, "-X"@, "PUT"@, "--silent"@]),
{
    if pat {
        return None;
    }
    let mut endpoint = String::from_str("repos/");
    endpoint.append(repo_full);
    endpoint.append("/collaborators/");
    endpoint.append(github_user);
    let mut v: Vec<String> = Vec::new();
    push_arg(&mut v, "gh");
    push_arg(&mut v, "api");
    crate::cmd::push_arg_string(&mut v, endpoint);
    push_arg(&mut v, "-X");
    push_arg(&mut v, "PUT");
    push_arg(&mut v, "--silent");
    proof {
        assert(v.deep_view() =~= seq!["gh"@, "api"@, "repos/"@ + repo_full@ + "/collaborators/"@
            + github_user@, "-X"@, "PUT"@, "--silent"@]);
    }
    Some(v)
}

/// `gh repo clone {repo} {dir}` — the scratch clone that takes the seed
/// content.
pub fn clone_repo_cmd(repo_full: &str, dir: &str) -> (r: Vec<String>)
    ensures
        r.deep_view() == seq!["gh"@, "repo"@, "clone"@, repo_full@, dir@],
{
    let mut v: Vec<String> = Vec::new();
    push_arg(&mut v, "gh");
    push_arg(&mut v, "repo");
    push_arg(&mut v, "clone");
    push_arg(&mut v, repo_full);
    push_arg(&mut v, dir);
    proof {
        assert(v.deep_view() =~= seq!["gh"@, "repo"@, "clone"@, repo_full@, dir@]);
    }
    v
}

/// The commit message of the seed commit.
pub fn seed_commit_message(display: &str) -> (r: String)
    ensures
        r@ == "Initialize shared correspondence repo for "@ + display@,
{
    let mut r = String::from_str("Initialize shared correspondence repo for ");
    r.append(display);
    r
}

/// `git submodule add git@github.com:{repo}.git {path}` — links the
/// seeded remote into the local tree as a nested working copy.
pub fn submodule_add_cmd(repo_full: &str, sub_path: &str) -> (r: Vec<String>)
    ensures
        r.deep_view() == seq!["git"@, "submodule"@, "add"@, "git@github.com:"@ + repo_full@
            + ".git"@, sub_path@],
{
    let mut url = String::from_str("git@github.com:");
    url.append(repo_full);
    url.append(".git");
    let mut v: Vec<String> = Vec::new();
    push_arg(&mut v, "git");
    push_arg(&mut v, "submodule");
    push_arg(&mut v, "add");
    crate::cmd::push_arg_string(&mut v, url);
    push_arg(&mut v, sub_path);
    proof {
        assert(v.deep_view() =~= seq!["git"@, "submodule"@, "add"@, "git@github.com:"@ + repo_full@
            + ".git"@, sub_path@]);
    }
    v
}

} // verus!
