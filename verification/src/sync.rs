//! Reconciliation and status decisions: what to do after each external
//! step of a link sync, and how drift is reported.  The surrounding
//! pull/commit/push sequencing performs external commands and feeds their
//! results back into these functions.

use vstd::prelude::*;
use crate::cmd::CmdResult;
use crate::textutil::{all_wsp, contains_seq, contains_sub, is_blank, trim, trim_spec, str_eq};

verus! {

/// The fixed commit message of the reconciler's commit phase.
pub fn sync_commit_message() -> (r: &'static str)
    ensures
        r@ == "Sync shared conversations"@,
{
    "Sync shared conversations"
}

/// The fixed commit message of the reset operation's commit phase.
pub fn reset_commit_message() -> (r: &'static str)
    ensures
        r@ == "Reset template files to current version"@,
{
    "Reset template files to current version"
}

/// After a pull: whether fresh changes actually arrived (a successful pull
/// that did not report "Already up to date").  A failed pull is reported
/// and reconciliation continues; it never aborts the operation.
pub fn pull_brought_changes(pull: &CmdResult) -> (b: bool)
    ensures
        b == (pull.code == 0 && !contains_seq(pull.stdout@, "Already up to date"@)),
{
    pull.code == 0 && !contains_sub(pull.stdout.as_str(), "Already up to date")
}

/// After staging: whether the working copy has pending changes, judged
/// from `status --porcelain` output (anything beyond whitespace).
pub fn has_pending_changes(status: &CmdResult) -> (b: bool)
    ensures
        b == !all_wsp(status.stdout@),
{
    !is_blank(status.stdout.as_str())
}

/// Whether the shared auxiliary file must be copied into the link: when
/// the link's copy does not exist, or the source copy is strictly newer by
/// modification time, or either time cannot be read.
pub fn should_copy_aux(
    dst_exists: bool,
    src_mtime: Option<u64>,
    dst_mtime: Option<u64>,
) -> (b: bool)
    ensures
        !dst_exists ==> b,
        dst_exists ==> b == match (src_mtime, dst_mtime) {
            (Some(s), Some(d)) => s > d,
            _ => true,
        },
{
    if !dst_exists {
        true
    } else {
        match (src_mtime, dst_mtime) {
            (Some(s), Some(d)) => s > d,
            _ => true,
        }
    }
}

/// How one link of a batch was handled.
#[derive(PartialEq, Eq, Structural, Clone, Copy, Debug)]
pub enum LinkSync {
    /// The working copy was missing on disk; the link was skipped with a
    /// notice, which is a success, not an error.
    Skipped,
    /// The working copy was present and the pull/commit/push cycle was
    /// attempted.
    Attempted,
}

/// Plans a batch sync over the registered links, given which working
/// copies are present on disk.  Every link is handled: a missing working
/// copy is skipped, every other link is attempted, and the batch as a
/// whole succeeds regardless — one link's failure never prevents the
/// others from being processed.
pub fn sync_all_plan(present: &Vec<bool>) -> (r: (Vec<LinkSync>, Result<(), crate::CollabError>))
    ensures
        r.0@.len() == present@.len(),
        forall|i: int|
            0 <= i < present@.len() ==> r.0@[i] == (if present@[i] {
                LinkSync::Attempted
            } else {
                LinkSync::Skipped
            }),
        r.1 is Ok,
{
    let mut plan: Vec<LinkSync> = Vec::new();
    let mut i: usize = 0;
    while i < present.len()
        invariant
            0 <= i <= present@.len(),
            plan@.len() == i,
            forall|j: int|
                0 <= j < i ==> plan@[j] == (if present@[j] {
                    LinkSync::Attempted
                } else {
                    LinkSync::Skipped
                }),
        decreases present@.len() - i,
    {
        if present[i] {
            plan.push(LinkSync::Attempted);
        } else {
            plan.push(LinkSync::Skipped);
        }
        i += 1;
    }
    (plan, Ok(()))
}

/// The drift token shown for one direction: the trimmed `rev-list --count`
/// output when the count command succeeded, `?` when it failed.
pub open spec fn count_token(code: int, out: Seq<char>) -> Seq<char> {
    if code == 0 {
        trim_spec(out)
    } else {
        "?"@
    }
}

/// The status line for one link, from its incoming and outgoing drift
/// tokens: `up to date` when both are zero, otherwise the non-zero counts
/// labelled `incoming` / `outgoing`, comma-separated, both shown when the
/// history has diverged in both directions.
pub open spec fn status_line_spec(name: Seq<char>, inc: Seq<char>, outg: Seq<char>) -> Seq<char> {
    if inc == "0"@ && outg == "0"@ {
        "  "@ + name + ": up to date"@
    } else if inc != "0"@ && outg == "0"@ {
        "  "@ + name + ": "@ + inc + " incoming"@
    } else if inc == "0"@ && outg != "0"@ {
        "  "@ + name + ": "@ + outg + " outgoing"@
    } else {
        "  "@ + name + ": "@ + inc + " incoming, "@ + outg + " outgoing"@
    }
}

/// Renders the status line for one link from the results of the two
/// `rev-list --count` probes (incoming first, outgoing second).
pub fn status_report(name: &str, incoming: &CmdResult, outgoing: &CmdResult) -> (r: String)
    ensures
        r@ == status_line_spec(
            name@,
            count_token(incoming.code as int, incoming.stdout@),
            count_token(outgoing.code as int, outgoing.stdout@),
        ),
{
    let inc: &str = if incoming.code == 0 {
        trim(incoming.stdout.as_str())
    } else {
        "?"
    };
    let outg: &str = if outgoing.code == 0 {
        trim(outgoing.stdout.as_str())
    } else {
        "?"
    };
    let inc_zero = str_eq(inc, "0");
    let out_zero = str_eq(outg, "0");
    let mut r = String::from_str("  ");
    r.append(name);
    if inc_zero && out_zero {
        r.append(": up to date");
    } else if !inc_zero && out_zero {
        r.append(": ");
        r.append(inc);
        r.append(" incoming");
    } else if inc_zero && !out_zero {
        r.append(": ");
        r.append(outg);
        r.append(" outgoing");
    } else {
        r.append(": ");
        r.append(inc);
        r.append(" incoming, ");
        r.append(outg);
        r.append(" outgoing");
    }
    r
}

/// With no incoming drift, the status line reports exactly the outgoing
/// count and nothing else; with no drift at all it reads `up to date`.
pub proof fn lemma_status_line_outgoing_only(name: Seq<char>, inc: Seq<char>, outg: Seq<char>)
    ensures
        inc == "0"@ && outg != "0"@ ==> status_line_spec(name, inc, outg) == "  "@ + name + ": "@
            + outg + " outgoing"@,
        inc == "0"@ && outg == "0"@ ==> status_line_spec(name, inc, outg) == "  "@ + name
            + ": up to date"@,
{
}

} // verus!
