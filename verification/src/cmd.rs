//! External commands as data: every operation of the engine issues
//! version-control and hosting operations as argument vectors, built here
//! with exact contracts.  Nothing in this crate runs them.

use vstd::prelude::*;

verus! {

/// What running one external command yielded: captured output streams and
/// the exit code.  A non-zero exit is data, never a panic.
pub struct CmdResult {
    pub stdout: String,
    pub stderr: String,
    pub code: i32,
}

/// Appends one argument to an argument vector.
pub fn push_arg(v: &mut Vec<String>, s: &str)
    ensures
        final(v).deep_view() == old(v).deep_view().push(s@),
{
    proof {
        assert(v.deep_view().len() == v@.len());
    }
    v.push(String::from_str(s));
    proof {
        assert(v.deep_view() =~~= old(v).deep_view().push(s@));
    }
}

/// Appends one owned argument to an argument vector.
pub fn push_arg_string(v: &mut Vec<String>, s: String)
    ensures
        final(v).deep_view() == old(v).deep_view().push(s@),
{
    proof {
        assert(v.deep_view().len() == v@.len());
    }
    v.push(s);
    proof {
        assert(v.deep_view() =~~= old(v).deep_view().push(s@));
    }
}

/// `git -C {path} {verb}` — the shared shape of most working-copy commands.
pub open spec fn git_in_spec(path: Seq<char>, tail: Seq<Seq<char>>) -> Seq<Seq<char>> {
    seq!["git"@, "-C"@, path] + tail
}

/// `git -C {path} pull --rebase`
pub fn pull_cmd(path: &str) -> (r: Vec<String>)
    ensures
        r.deep_view() == git_in_spec(path@, seq!["pull"@, "--rebase"@]),
{
    let mut v: Vec<String> = Vec::new();
    push_arg(&mut v, "git");
    push_arg(&mut v, "-C");
    push_arg(&mut v, path);
    push_arg(&mut v, "pull");
    push_arg(&mut v, "--rebase");
    proof {
        assert(v.deep_view() =~= git_in_spec(path@, seq!["pull"@, "--rebase"@]));
    }
    v
}

/// `git -C {path} add -A`
pub fn stage_cmd(path: &str) -> (r: Vec<String>)
    ensures
        r.deep_view() == git_in_spec(path@, seq!["add"@, "-A"@]),
{
    let mut v: Vec<String> = Vec::new();
    push_arg(&mut v, "git");
    push_arg(&mut v, "-C");
    push_arg(&mut v, path);
    push_arg(&mut v, "add");
    push_arg(&mut v, "-A");
    proof {
        assert(v.deep_view() =~= git_in_spec(path@, seq!["add"@, "-A"@]));
    }
    v
}

/// `git -C {path} status --porcelain`
pub fn status_cmd(path: &str) -> (r: Vec<String>)
    ensures
        r.deep_view() == git_in_spec(path@, seq!["status"@, "--porcelain"@]),
{
    let mut v: Vec<String> = Vec::new();
    push_arg(&mut v, "git");
    push_arg(&mut v, "-C");
    push_arg(&mut v, path);
    push_arg(&mut v, "status");
    push_arg(&mut v, "--porcelain");
    proof {
        assert(v.deep_view() =~= git_in_spec(path@, seq!["status"@, "--porcelain"@]));
    }
    v
}

/// `git -C {path} commit -m {message}`
pub fn commit_cmd(path: &str, message: &str) -> (r: Vec<String>)
    ensures
        r.deep_view() == git_in_spec(path@, seq!["commit"@, "-m"@, message@]),
{
    let mut v: Vec<String> = Vec::new();
    push_arg(&mut v, "git");
    push_arg(&mut v, "-C");
    push_arg(&mut v, path);
    push_arg(&mut v, "commit");
    push_arg(&mut v, "-m");
    push_arg(&mut v, message);
    proof {
        assert(v.deep_view() =~= git_in_spec(path@, seq!["commit"@, "-m"@, message@]));
    }
    v
}

/// `git -C {path} push`
pub fn push_cmd(path: &str) -> (r: Vec<String>)
    ensures
        r.deep_view() == git_in_spec(path@, seq!["push"@]),
{
    let mut v: Vec<String> = Vec::new();
    push_arg(&mut v, "git");
    push_arg(&mut v, "-C");
    push_arg(&mut v, path);
    push_arg(&mut v, "push");
    proof {
        assert(v.deep_view() =~= git_in_spec(path@, seq!["push"@]));
    }
    v
}

/// `git -C {path} fetch`
pub fn fetch_cmd(path: &str) -> (r: Vec<String>)
    ensures
        r.deep_view() == git_in_spec(path@, seq!["fetch"@]),
{
    let mut v: Vec<String> = Vec::new();
    push_arg(&mut v, "git");
    push_arg(&mut v, "-C");
    push_arg(&mut v, path);
    push_arg(&mut v, "fetch");
    proof {
        assert(v.deep_view() =~= git_in_spec(path@, seq!["fetch"@]));
    }
    v
}

/// `git -C {path} rev-list --count HEAD..@{u}` — commits only the remote
/// has (incoming).
pub fn count_incoming_cmd(path: &str) -> (r: Vec<String>)
    ensures
        r.deep_view() == git_in_spec(path@, seq!["rev-list"@, "--count"@, "HEAD..@{u}"@]),
{
    let mut v: Vec<String> = Vec::new();
    push_arg(&mut v, "git");
    push_arg(&mut v, "-C");
    push_arg(&mut v, path);
    push_arg(&mut v, "rev-list");
    push_arg(&mut v, "--count");
    push_arg(&mut v, "HEAD..@{u}");
    proof {
        assert(v.deep_view() =~= git_in_spec(path@, seq!["rev-list"@, "--count"@, "HEAD..@{u}"@]));
    }
    v
}

/// `git -C {path} rev-list --count @{u}..HEAD` — commits only the local
/// side has (outgoing).
pub fn count_outgoing_cmd(path: &str) -> (r: Vec<String>)
    ensures
        r.deep_view() == git_in_spec(path@, seq!["rev-list"@, "--count"@, "@{u}..HEAD"@]),
{
    let mut v: Vec<String> = Vec::new();
    push_arg(&mut v, "git");
    push_arg(&mut v, "-C");
    push_arg(&mut v, path);
    push_arg(&mut v, "rev-list");
    push_arg(&mut v, "--count");
    push_arg(&mut v, "@{u}..HEAD");
    proof {
        assert(v.deep_view() =~= git_in_spec(path@, seq!["rev-list"@, "--count"@, "@{u}..HEAD"@]));
    }
    v
}

/// `git add {path}` — records the link's new commit in the parent tree.
pub fn track_cmd(path: &str) -> (r: Vec<String>)
    ensures
        r.deep_view() == seq!["git"@, "add"@, path@],
{
    let mut v: Vec<String> = Vec::new();
    push_arg(&mut v, "git");
    push_arg(&mut v, "add");
    push_arg(&mut v, path);
    proof {
        assert(v.deep_view() =~= seq!["git"@, "add"@, path@]);
    }
    v
}

/// `git mv {from} {to}` — history-preserving move of a working copy.
pub fn move_cmd(from: &str, to: &str) -> (r: Vec<String>)
    ensures
        r.deep_view() == seq!["git"@, "mv"@, from@, to@],
{
    let mut v: Vec<String> = Vec::new();
    push_arg(&mut v, "git");
    push_arg(&mut v, "mv");
    push_arg(&mut v, from);
    push_arg(&mut v, to);
    proof {
        assert(v.deep_view() =~= seq!["git"@, "mv"@, from@, to@]);
    }
    v
}

/// `git submodule deinit -f {path}`
pub fn deinit_cmd(path: &str) -> (r: Vec<String>)
    ensures
        r.deep_view() == seq!["git"@, "submodule"@, "deinit"@, "-f"@, path@],
{
    let mut v: Vec<String> = Vec::new();
    push_arg(&mut v, "git");
    push_arg(&mut v, "submodule");
    push_arg(&mut v, "deinit");
    push_arg(&mut v, "-f");
    push_arg(&mut v, path);
    proof {
        assert(v.deep_view() =~= seq!["git"@, "submodule"@, "deinit"@, "-f"@, path@]);
    }
    v
}

/// `git rm -f {path}`
pub fn untrack_cmd(path: &str) -> (r: Vec<String>)
    ensures
        r.deep_view() == seq!["git"@, "rm"@, "-f"@, path@],
{
    let mut v: Vec<String> = Vec::new();
    push_arg(&mut v, "git");
    push_arg(&mut v, "rm");
    push_arg(&mut v, "-f");
    push_arg(&mut v, path);
    proof {
        assert(v.deep_view() =~= seq!["git"@, "rm"@, "-f"@, path@]);
    }
    v
}

/// Maps an external command's exit code onto the engine's error taxonomy:
/// zero is success, anything else an external command failure.
pub fn step_outcome(code: i32) -> (r: Result<(), crate::CollabError>)
    ensures
        code == 0 ==> r is Ok,
        code != 0 ==> r == Result::<(), crate::CollabError>::Err(
            crate::CollabError::ExternalCommandFailure,
        ),
{
    if code == 0 {
        Ok(())
    } else {
        Err(crate::CollabError::ExternalCommandFailure)
    }
}

} // verus!
