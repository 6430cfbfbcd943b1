//! Tests for the registry store: loading, saving, derivation of remote
//! references, and the round trip between them.

use corrkit::codec::{load_collaborators, save_collaborators};
use corrkit::link::{auto_repo, collab_dir, collab_dir_candidates, Collaborator};
use corrkit::registry::Registry;

fn link(id: &str, labels: &[&str], repo: &str, name: &str, account: &str) -> Collaborator {
    Collaborator {
        labels: labels.iter().map(|l| l.to_string()).collect(),
        repo: repo.to_string(),
        github_user: id.to_string(),
        name: name.to_string(),
        account: account.to_string(),
    }
}

#[test]
fn test_load_collaborators_empty_file() {
    let reg = load_collaborators("", "").unwrap();
    assert!(reg.is_empty());
}

#[test]
fn test_load_collaborators_blank_file() {
    let reg = load_collaborators("  \n\t\n", "owner").unwrap();
    assert!(reg.is_empty());
}

#[test]
fn test_load_collaborators_basic() {
    let reg = load_collaborators(
        "\n[alex]\nlabels = [\"for-alex\"]\nname = \"Alex\"\n",
        "",
    )
    .unwrap();
    assert_eq!(reg.len(), 1);
    let alex = reg.get("alex").unwrap();
    assert_eq!(alex.labels, vec!["for-alex"]);
    assert_eq!(alex.name, "Alex");
    assert_eq!(alex.github_user, "alex");
    // No owner identity: the repo reference stays as given (empty here).
    assert_eq!(alex.repo, "");
}

#[test]
fn test_load_collaborators_derives_repo() {
    let reg = load_collaborators("[alex]\nlabels = [\"for-alex\"]\n", "owner").unwrap();
    let alex = reg.get("alex").unwrap();
    assert_eq!(alex.repo, "owner/to-alex");
}

#[test]
fn test_load_collaborators_with_account_scoped_labels() {
    let reg = load_collaborators(
        "\n[bot-agent]\nlabels = [\"for-bot\", \"proton-dev:INBOX\"]\naccount = \"personal\"\n",
        "owner",
    )
    .unwrap();
    let bot = reg.get("bot-agent").unwrap();
    assert_eq!(bot.labels, vec!["for-bot", "proton-dev:INBOX"]);
    assert_eq!(bot.account, "personal");
}

#[test]
fn test_load_collaborators_explicit_repo() {
    let reg = load_collaborators(
        "\n[custom]\nlabels = [\"for-custom\"]\nrepo = \"myorg/custom-repo\"\n",
        "owner",
    )
    .unwrap();
    let custom = reg.get("custom").unwrap();
    // Explicit repo is never overridden by derivation.
    assert_eq!(custom.repo, "myorg/custom-repo");
}

#[test]
fn test_load_collaborators_multiple() {
    let reg = load_collaborators(
        "\n[alice]\nlabels = [\"for-alice\"]\nname = \"Alice\"\n\n[bob]\nlabels = [\"for-bob\"]\nname = \"Bob\"\n\n[charlie]\nlabels = [\"for-charlie\"]\nname = \"Charlie\"\n",
        "owner",
    )
    .unwrap();
    assert_eq!(reg.len(), 3);
    assert!(reg.contains("alice"));
    assert!(reg.contains("bob"));
    assert!(reg.contains("charlie"));
}

#[test]
fn test_load_collaborators_rejects_duplicate_sections() {
    let r = load_collaborators("[a]\nlabels = []\n\n[a]\nlabels = []\n", "");
    assert!(r.is_err());
}

#[test]
fn test_load_collaborators_rejects_field_outside_section() {
    let r = load_collaborators("labels = [\"x\"]\n", "");
    assert!(r.is_err());
}

#[test]
fn test_load_collaborators_rejects_section_without_labels() {
    let r = load_collaborators("[a]\nname = \"A\"\n", "");
    assert!(r.is_err());
}

#[test]
fn test_load_collaborators_skips_unknown_keys() {
    let reg = load_collaborators("[a]\nlabels = [\"x\"]\ncolour = \"red\"\n", "").unwrap();
    assert_eq!(reg.len(), 1);
}

#[test]
fn test_save_collaborators() {
    let mut reg = Registry::new();
    reg.insert(link("alex", &["for-alex"], "owner/to-alex", "Alex", "personal"));
    let content = save_collaborators(&reg);
    assert!(content.contains("[alex]"));
    assert!(content.contains("\"for-alex\""));
    assert!(content.contains("name = \"Alex\""));
    assert!(content.contains("repo = \"owner/to-alex\""));
    assert!(content.contains("account = \"personal\""));
}

#[test]
fn test_save_collaborators_exact_text() {
    let mut reg = Registry::new();
    reg.insert(link("alex", &["for-alex"], "owner/to-alex", "Alex", ""));
    let content = save_collaborators(&reg);
    assert_eq!(
        content,
        "[alex]\nlabels = [\"for-alex\"]\nname = \"Alex\"\nrepo = \"owner/to-alex\"\n"
    );
}

#[test]
fn test_save_and_reload_collaborators() {
    let mut reg = Registry::new();
    reg.insert(link("alex", &["for-alex", "shared"], "owner/to-alex", "Alex", ""));
    let saved = save_collaborators(&reg);
    let reloaded = load_collaborators(&saved, "owner").unwrap();
    assert_eq!(reloaded.len(), 1);
    let alex = reloaded.get("alex").unwrap();
    assert_eq!(alex.labels, vec!["for-alex", "shared"]);
    assert_eq!(alex.name, "Alex");
    assert_eq!(alex.repo, "owner/to-alex");
}

#[test]
fn test_roundtrip_with_derivation() {
    // An empty repo reference is re-derived on load; everything else is
    // restored exactly.
    let mut reg = Registry::new();
    reg.insert(link("alex", &["for-alex"], "", "", "personal"));
    reg.insert(link("Bea", &[], "custom/repo", "Bea B", ""));
    let saved = save_collaborators(&reg);
    let reloaded = load_collaborators(&saved, "own").unwrap();
    assert_eq!(reloaded.len(), 2);
    let alex = reloaded.get("alex").unwrap();
    assert_eq!(alex.repo, "own/to-alex");
    assert_eq!(alex.account, "personal");
    let bea = reloaded.get("Bea").unwrap();
    assert_eq!(bea.repo, "custom/repo");
    assert_eq!(bea.name, "Bea B");
    assert_eq!(bea.labels, Vec::<String>::new());
}

#[test]
fn test_collab_dir() {
    let c = link("AlexUser", &[], "", "", "");
    let dir = collab_dir("/data", &c);
    assert!(dir.ends_with("collabs/alexuser/to"));
    assert_eq!(dir, "/data/collabs/alexuser/to");
}

#[test]
fn test_collab_to_dir_lowercases() {
    let (to_dir, _) = collab_dir_candidates("/data", "AlexUser");
    assert!(to_dir.contains("alexuser"));
    assert!(to_dir.ends_with("collabs/alexuser/to"));
}

#[test]
fn test_collab_from_dir_lowercases() {
    let (_, from_dir) = collab_dir_candidates("/data", "AlexUser");
    assert!(from_dir.contains("alexuser"));
    assert!(from_dir.ends_with("collabs/alexuser/from"));
}

#[test]
fn test_collaborator_default_fields() {
    let reg = load_collaborators("\n[minimal]\nlabels = [\"test\"]\n", "owner").unwrap();
    let minimal = reg.get("minimal").unwrap();
    assert!(minimal.name.is_empty());
    assert!(minimal.account.is_empty());
    assert_eq!(minimal.github_user, "minimal");
}

#[test]
fn test_save_in_ascending_id_order() {
    // Canonical save order is by id, whatever order the entries were
    // registered in.
    let mut reg = Registry::new();
    reg.insert(link("b", &["x"], "", "", ""));
    reg.insert(link("a", &["y"], "", "", ""));
    let content = save_collaborators(&reg);
    let a_at = content.find("[a]").unwrap();
    let b_at = content.find("[b]").unwrap();
    assert!(a_at < b_at);
    assert!(content.starts_with("[a]\n"));
}

#[test]
fn test_load_reorders_by_id() {
    // A hand-edited file out of order loads into canonical order, as the
    // sorted mapping always did.
    let reg = load_collaborators(
        "[b]\nlabels = [\"x\"]\n\n[a]\nlabels = [\"y\"]\n",
        "",
    )
    .unwrap();
    assert_eq!(reg.at(0).github_user, "a");
    assert_eq!(reg.at(1).github_user, "b");
    let ids = reg.ids();
    assert_eq!(ids, vec!["a", "b"]);
}

#[test]
fn test_auto_repo_lowercases() {
    assert_eq!(auto_repo("owner", "AlexUser"), "owner/to-alexuser");
}

#[test]
fn test_registry_remove() {
    let mut reg = Registry::new();
    reg.insert(link("a", &["x"], "", "", ""));
    reg.insert(link("b", &["y"], "", "", ""));
    let removed = reg.remove("a").unwrap();
    assert_eq!(removed.github_user, "a");
    assert_eq!(reg.len(), 1);
    assert!(!reg.contains("a"));
    assert!(reg.contains("b"));
    assert!(reg.remove("a").is_none());
    assert_eq!(reg.len(), 1);
}
