//! Tests for the link lifecycle engine: provisioning, sync planning,
//! status reporting, renaming and removal.

use corrkit::cmd::{pull_cmd, step_outcome, CmdResult};
use corrkit::link::Collaborator;
use corrkit::provision::{add_check, create_repo_cmd, invite_cmd, seed_commit_message, submodule_add_cmd};
use corrkit::registry::Registry;
use corrkit::remove::{delete_repo_cmd, remove_registry, should_delete_remote};
use corrkit::rename::{rename_check, rename_registry, rename_remote_decision};
use corrkit::sync::{
    has_pending_changes, pull_brought_changes, should_copy_aux, status_report, sync_all_plan,
    LinkSync,
};
use corrkit::templates::template_files;
use corrkit::CollabError;

fn res(stdout: &str, code: i32) -> CmdResult {
    CmdResult { stdout: stdout.to_string(), stderr: String::new(), code }
}

fn labels(ls: &[&str]) -> Vec<String> {
    ls.iter().map(|l| l.to_string()).collect()
}

#[test]
fn test_add_builds_plan() {
    // Empty registry; add("alex", labels=["for-alex"]) with owner org
    // "own": the registry entry carries the derived repo and empty
    // name/account.
    let mut reg = Registry::new();
    let plan = add_check(&reg, "alex", &labels(&["for-alex"]), "", "", "", "own", "/d", false)
        .unwrap();
    assert_eq!(plan.repo_full, "own/to-alex");
    assert_eq!(plan.sub_path, "/d/collabs/alex/to");
    assert_eq!(plan.entry.labels, vec!["for-alex"]);
    assert_eq!(plan.entry.repo, "own/to-alex");
    assert_eq!(plan.entry.name, "");
    assert_eq!(plan.entry.account, "");
    reg.insert(plan.entry);
    assert_eq!(reg.len(), 1);
    let alex = reg.get("alex").unwrap();
    assert_eq!(alex.labels, vec!["for-alex"]);
    assert_eq!(alex.repo, "own/to-alex");
}

#[test]
fn test_add_twice_rejected() {
    // A second add with the same id fails with AlreadyExists and the
    // registry keeps the first call's result.
    let mut reg = Registry::new();
    let plan = add_check(&reg, "alex", &labels(&["for-alex"]), "", "", "", "own", "/d", false)
        .unwrap();
    reg.insert(plan.entry);
    let second = add_check(&reg, "alex", &labels(&["other"]), "", "", "", "own", "/d", false);
    assert!(matches!(second, Err(CollabError::AlreadyExists)));
    assert_eq!(reg.len(), 1);
    assert_eq!(reg.get("alex").unwrap().labels, vec!["for-alex"]);
}

#[test]
fn test_add_rejects_existing_path() {
    let reg = Registry::new();
    let r = add_check(&reg, "alex", &labels(&["l"]), "", "", "", "own", "/d", true);
    assert!(matches!(r, Err(CollabError::AlreadyExists)));
}

#[test]
fn test_add_org_fallback_and_explicit() {
    let reg = Registry::new();
    let p1 = add_check(&reg, "Bea", &labels(&[]), "", "", "", "owner", "/d", false).unwrap();
    assert_eq!(p1.repo_full, "owner/to-bea");
    let p2 = add_check(&reg, "Bea", &labels(&[]), "", "", "org", "owner", "/d", false).unwrap();
    assert_eq!(p2.repo_full, "org/to-bea");
}

#[test]
fn test_provision_commands() {
    assert_eq!(
        create_repo_cmd("own/to-alex", false),
        vec!["gh", "repo", "create", "own/to-alex", "--private", "--confirm"]
    );
    assert_eq!(
        create_repo_cmd("own/to-alex", true),
        vec!["gh", "repo", "create", "own/to-alex", "--public", "--confirm"]
    );
    assert_eq!(
        invite_cmd("own/to-alex", "alex", false).unwrap(),
        vec!["gh", "api", "repos/own/to-alex/collaborators/alex", "-X", "PUT", "--silent"]
    );
    // Token-based access: no invitation is issued.
    assert!(invite_cmd("own/to-alex", "alex", true).is_none());
    assert_eq!(
        seed_commit_message("Alex"),
        "Initialize shared correspondence repo for Alex"
    );
    assert_eq!(
        submodule_add_cmd("own/to-alex", "/d/collabs/alex/to"),
        vec!["git", "submodule", "add", "git@github.com:own/to-alex.git", "/d/collabs/alex/to"]
    );
}

#[test]
fn test_sync_all_isolates_missing_working_copies() {
    // Batch over ["a", "b", "c"] where "b"'s working copy is absent:
    // "a" and "c" are attempted, "b" is skipped, and the batch still
    // succeeds.
    let present = vec![true, false, true];
    let (plan, outcome) = sync_all_plan(&present);
    assert_eq!(plan.len(), 3);
    assert!(matches!(plan[0], LinkSync::Attempted));
    assert!(matches!(plan[1], LinkSync::Skipped));
    assert!(matches!(plan[2], LinkSync::Attempted));
    assert!(outcome.is_ok());
}

#[test]
fn test_sync_decisions() {
    assert!(pull_brought_changes(&res("Updating 1..2\n", 0)));
    assert!(!pull_brought_changes(&res("Already up to date.\n", 0)));
    assert!(!pull_brought_changes(&res("", 1)));
    assert!(has_pending_changes(&res(" M conversations/x.md\n", 0)));
    assert!(!has_pending_changes(&res("\n", 0)));
    assert!(should_copy_aux(false, None, None));
    assert!(should_copy_aux(true, Some(10), Some(5)));
    assert!(!should_copy_aux(true, Some(5), Some(5)));
    assert!(should_copy_aux(true, None, Some(5)));
    assert_eq!(pull_cmd("/d/x"), vec!["git", "-C", "/d/x", "pull", "--rebase"]);
}

#[test]
fn test_status_two_outgoing() {
    // 2 local-only commits and 0 remote-only: exactly "2 outgoing" and
    // no incoming count.
    let line = status_report("alex", &res("0\n", 0), &res("2\n", 0));
    assert_eq!(line, "  alex: 2 outgoing");
    assert!(!line.contains("incoming"));
}

#[test]
fn test_status_up_to_date() {
    let line = status_report("alex", &res("0\n", 0), &res("0\n", 0));
    assert_eq!(line, "  alex: up to date");
}

#[test]
fn test_status_divergent_and_failed_probe() {
    let line = status_report("alex", &res("3\n", 0), &res("1\n", 0));
    assert_eq!(line, "  alex: 3 incoming, 1 outgoing");
    let line = status_report("alex", &res("", 128), &res("0\n", 0));
    assert_eq!(line, "  alex: ? incoming");
}

#[test]
fn test_rename_validation() {
    let mut reg = Registry::new();
    let plan = add_check(&reg, "alex", &labels(&["l"]), "", "", "", "own", "/d", false).unwrap();
    reg.insert(plan.entry);
    assert!(matches!(
        rename_check(&reg, "missing", "new"),
        Err(CollabError::NotFound)
    ));
    assert!(matches!(
        rename_check(&reg, "alex", "alex"),
        Err(CollabError::AlreadyExists)
    ));
    assert!(rename_check(&reg, "alex", "bea").is_ok());
    // Failed validation leaves the registry untouched.
    let r = rename_registry(&mut reg, "missing", "bea", "x".to_string());
    assert!(matches!(r, Err(CollabError::NotFound)));
    assert_eq!(reg.len(), 1);
    assert!(reg.contains("alex"));
}

#[test]
fn test_rename_rekeys_entry() {
    let mut reg = Registry::new();
    let plan = add_check(
        &reg,
        "alex",
        &labels(&["for-alex"]),
        "Alex",
        "acct",
        "",
        "own",
        "/d",
        false,
    )
    .unwrap();
    reg.insert(plan.entry);
    rename_registry(&mut reg, "alex", "bea", "own/to-bea".to_string()).unwrap();
    assert!(!reg.contains("alex"));
    let bea = reg.get("bea").unwrap();
    assert_eq!(bea.github_user, "bea");
    assert_eq!(bea.labels, vec!["for-alex"]);
    assert_eq!(bea.name, "Alex");
    assert_eq!(bea.account, "acct");
    assert_eq!(bea.repo, "own/to-bea");
}

#[test]
fn test_rename_remote_decision() {
    let d = rename_remote_decision(true, "own/to-alex", "own", "Bea").unwrap();
    assert_eq!(d.0, vec!["gh", "repo", "rename", "to-bea", "-R", "own/to-alex", "--yes"]);
    assert_eq!(d.1, "own/to-bea");
    // No remote reference, or not asked: the reference is kept.
    assert!(rename_remote_decision(true, "", "own", "Bea").is_none());
    assert!(rename_remote_decision(false, "own/to-alex", "own", "Bea").is_none());
    // Owner identity unavailable: the bare repository name.
    let d = rename_remote_decision(true, "own/to-alex", "", "Bea").unwrap();
    assert_eq!(d.1, "to-bea");
}

#[test]
fn test_remove_declined_confirmation() {
    // remove("alex", deleteRemote=true) with confirmation declined: the
    // remote stays, the registry entry goes.
    let mut reg = Registry::new();
    let plan = add_check(&reg, "alex", &labels(&["l"]), "", "", "", "own", "/d", false).unwrap();
    reg.insert(plan.entry);
    let removed = remove_registry(&mut reg, "alex").unwrap();
    assert_eq!(removed.repo, "own/to-alex");
    assert_eq!(reg.len(), 0);
    assert!(!should_delete_remote(true, removed.repo.as_str(), false));
    assert!(should_delete_remote(true, removed.repo.as_str(), true));
    assert!(!should_delete_remote(false, removed.repo.as_str(), true));
    assert!(!should_delete_remote(true, "", true));
}

#[test]
fn test_remove_unknown_id() {
    let mut reg = Registry::new();
    let r = remove_registry(&mut reg, "ghost");
    assert!(matches!(r, Err(CollabError::NotFound)));
    assert_eq!(delete_repo_cmd("own/x"), vec!["gh", "repo", "delete", "own/x", "--yes"]);
}

#[test]
fn test_step_outcome_maps_exit_codes() {
    assert!(step_outcome(0).is_ok());
    assert!(matches!(step_outcome(1), Err(CollabError::ExternalCommandFailure)));
    let sample: Result<(), CollabError> = Err(CollabError::NotFound);
    assert_eq!(corrkit::exit_code_for(&sample), 1);
    assert_eq!(corrkit::exit_code_for(&Ok(())), 0);
    assert_eq!(
        corrkit::exit_code_for(&Err(CollabError::EnvironmentFailure)),
        2
    );
}

#[test]
fn test_regenerate_idempotent_outputs() {
    // Regenerating twice with unchanged inputs yields byte-identical
    // files, so the second pass stages nothing.
    let voice = "voice".to_string();
    let once = template_files("Alex", "Owner", Some(&voice));
    let twice = template_files("Alex", "Owner", Some(&voice));
    assert_eq!(once.len(), 5);
    assert_eq!(twice.len(), 5);
    for (a, b) in once.iter().zip(twice.iter()) {
        assert_eq!(a.path, b.path);
        assert_eq!(a.content, b.content);
    }
    let no_voice = template_files("Alex", "Owner", None);
    assert_eq!(no_voice.len(), 4);
    assert_eq!(no_voice[0].path, "AGENTS.md");
    assert_eq!(no_voice[1].path, "ASSISTANT.md");
    assert_eq!(no_voice[1].content, "AGENTS.md");
    assert_eq!(no_voice[2].path, "README.md");
    assert_eq!(no_voice[3].path, ".gitignore");
    assert_eq!(
        no_voice[3].content,
        "AGENTS.local.md\nASSISTANT.local.md\n__pycache__/\n"
    );
}

#[test]
fn test_display_name_defaults_to_id() {
    let c = Collaborator {
        labels: vec![],
        repo: String::new(),
        github_user: "alex".to_string(),
        name: String::new(),
        account: String::new(),
    };
    assert_eq!(c.display_name().as_str(), "alex");
    let named = Collaborator { name: "Alex".to_string(), ..c };
    assert_eq!(named.display_name().as_str(), "Alex");
}
