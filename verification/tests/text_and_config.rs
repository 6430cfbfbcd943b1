//! Tests for thread extraction, draft validation, space resolution, the
//! contact renderer, and the sync-state migration.

use corrkit::appcfg::{add_space, app_config_path, resolve_space, Space, SpaceResolution};
use corrkit::contact::{load_contacts, save_contacts, Contact, NamedContact};
use corrkit::mailbox::{last_sender, thread_date, thread_labels, validate_draft, Scope};
use corrkit::codec::{load_collaborators, save_collaborators};
use corrkit::corrconfig::resolve_from_name;
use corrkit::link::{find_collab_dir, Collaborator};
use corrkit::registry::Registry;
use corrkit::textutil::{contains_sub, ends_with, starts_with, str_eq, to_lower, trim};
use corrkit::types::{migrate_state, AccountSyncState, LabelEntry, LabelState, SyncState};

#[test]
fn test_scope_from_arg() {
    assert!(matches!(Scope::from_arg(None), Scope::All));
    assert!(matches!(Scope::from_arg(Some(".")), Scope::RootOnly));
    match Scope::from_arg(Some("alex")) {
        Scope::Mailbox(n) => assert_eq!(n, "alex"),
        _ => panic!("expected a mailbox scope"),
    }
}

#[test]
fn test_last_sender_takes_last_heading() {
    let text = "## Alice \u{2014} 2026-01-01\n\nhi\n\n## Bob \u{2014} 2026-01-02\n\nhello\n";
    assert_eq!(last_sender(text), "Bob");
    assert_eq!(last_sender("no headings here\n"), "");
}

#[test]
fn test_thread_date() {
    let text = "# T\n\n**Last updated**: 2026-02-03\n";
    assert_eq!(thread_date(text), "2026-02-03");
    assert_eq!(thread_date("# T\n\nnothing\n"), "");
}

#[test]
fn test_thread_labels() {
    assert_eq!(thread_labels("**Labels**: for-alex, shared\n"), "for-alex, shared");
    assert_eq!(thread_labels("**Label**: one\n"), "one");
    assert_eq!(thread_labels("# T\n"), "");
}

#[test]
fn test_validate_draft_clean() {
    let text = "# Subject\n\n**To**: a@b.com\n**Status**: review\n**Author**: Alice\n\n---\n\nbody text\n";
    let issues = validate_draft(text);
    assert!(issues.is_empty());
}

#[test]
fn test_validate_draft_missing_everything() {
    let issues = validate_draft("just some text\n");
    assert_eq!(
        issues,
        vec![
            "Missing subject: no '# Subject' heading found",
            "Missing required field: **To**",
            "Warning: missing recommended field: **Status**",
            "Warning: missing recommended field: **Author**",
            "Missing '---' separator between metadata and body",
        ]
    );
}

#[test]
fn test_validate_draft_invalid_status() {
    let text = "# S\n\n**To**: a@b\n**Status**: Pending\n**Author**: A\n\n---\n\nbody\n";
    let issues = validate_draft(text);
    assert_eq!(
        issues,
        vec!["Invalid status 'Pending'. Valid: draft, review, approved, sent"]
    );
}

#[test]
fn test_validate_draft_draft_status_warns() {
    let text = "# S\n\n**To**: a@b\n**Status**: draft\n**Author**: A\n\n---\n\nbody\n";
    let issues = validate_draft(text);
    assert_eq!(
        issues,
        vec!["Warning: Status is 'draft'. Set to 'review' when ready for review"]
    );
}

#[test]
fn test_validate_draft_empty_body() {
    let text = "# S\n\n**To**: a@b\n**Status**: review\n**Author**: A\n\n---\n\n";
    let issues = validate_draft(text);
    assert_eq!(issues, vec!["Warning: empty body after --- separator"]);
}

#[test]
fn test_app_config_path() {
    assert_eq!(app_config_path("/home/u/.config/corrkit"), "/home/u/.config/corrkit/config.toml");
}

fn space(name: &str, path: &str) -> Space {
    Space { name: name.to_string(), path: path.to_string() }
}

#[test]
fn test_resolve_space_cases() {
    let none: Vec<Space> = vec![];
    assert!(matches!(resolve_space(&none, None, None), SpaceResolution::NoSpaces));

    let one = vec![space("work", "/w")];
    match resolve_space(&one, None, None) {
        SpaceResolution::Found(p) => assert_eq!(p, "/w"),
        _ => panic!("sole space should resolve"),
    }
    match resolve_space(&one, None, Some("work")) {
        SpaceResolution::Found(p) => assert_eq!(p, "/w"),
        _ => panic!("named space should resolve"),
    }
    assert!(matches!(
        resolve_space(&one, None, Some("missing")),
        SpaceResolution::UnknownName
    ));

    let two = vec![space("work", "/w"), space("home", "/h")];
    assert!(matches!(resolve_space(&two, None, None), SpaceResolution::Ambiguous));
    match resolve_space(&two, Some("home"), None) {
        SpaceResolution::Found(p) => assert_eq!(p, "/h"),
        _ => panic!("default space should resolve"),
    }
}

#[test]
fn test_add_space_defaults_first() {
    let mut spaces: Vec<Space> = vec![];
    assert!(add_space(&mut spaces, "work", "/w"));
    assert!(!add_space(&mut spaces, "home", "/h"));
    assert_eq!(spaces.len(), 2);
    // Re-registering re-points without duplicating.
    assert!(!add_space(&mut spaces, "work", "/w2"));
    assert_eq!(spaces.len(), 2);
}

#[test]
fn test_save_contacts_renders_fields() {
    let entries = vec![NamedContact {
        name: "alice".to_string(),
        contact: Contact {
            emails: vec!["a@b.com".to_string()],
            labels: vec!["friends".to_string()],
            account: "personal".to_string(),
        },
    }];
    let out = save_contacts(&entries);
    assert_eq!(
        out,
        "[alice]\nemails = [\"a@b.com\"]\nlabels = [\"friends\"]\naccount = \"personal\"\n"
    );
    let minimal = vec![NamedContact {
        name: "bob".to_string(),
        contact: Contact { emails: vec![], labels: vec![], account: String::new() },
    }];
    assert_eq!(save_contacts(&minimal), "[bob]\n");
}

#[test]
fn test_load_contacts_reads_fields() {
    let entries = load_contacts(
        "[alice]\nemails = [\"a@b.com\", \"a2@b.com\"]\nlabels = [\"friends\"]\naccount = \"personal\"\n\n[bob]\n",
    )
    .unwrap();
    assert_eq!(entries.len(), 2);
    assert_eq!(entries[0].name, "alice");
    assert_eq!(entries[0].contact.emails, vec!["a@b.com", "a2@b.com"]);
    assert_eq!(entries[0].contact.labels, vec!["friends"]);
    assert_eq!(entries[0].contact.account, "personal");
    // Every field defaults to empty.
    assert_eq!(entries[1].name, "bob");
    assert!(entries[1].contact.emails.is_empty());
    assert!(entries[1].contact.labels.is_empty());
    assert!(entries[1].contact.account.is_empty());
}

#[test]
fn test_contacts_save_then_load() {
    let entries = vec![NamedContact {
        name: "alice".to_string(),
        contact: Contact {
            emails: vec!["a@b.com".to_string()],
            labels: vec![],
            account: "personal".to_string(),
        },
    }];
    let text = save_contacts(&entries);
    let back = load_contacts(&text).unwrap();
    assert_eq!(back.len(), 1);
    assert_eq!(back[0].name, "alice");
    assert_eq!(back[0].contact.emails, vec!["a@b.com"]);
    assert!(back[0].contact.labels.is_empty());
    assert_eq!(back[0].contact.account, "personal");
}

#[test]
fn test_load_contacts_rejects_bad_text() {
    assert!(load_contacts("[a]\n\n[a]\n").is_err());
    assert!(load_contacts("emails = [\"x\"]\n").is_err());
    assert!(load_contacts("just text\n").is_err());
    assert!(load_contacts("  \n\n").unwrap().is_empty());
}

#[test]
fn test_text_utilities() {
    assert_eq!(to_lower("AlexUser"), "alexuser");
    assert_eq!(to_lower("mixed-42_X"), "mixed-42_x");
    assert_eq!(trim("  a b \t\n"), "a b");
    assert_eq!(trim("   \n"), "");
    assert!(starts_with("labels = [..]", "labels = "));
    assert!(!starts_with("label = x", "labels = "));
    assert!(ends_with("a/to", "/to"));
    assert!(contains_sub("Already up to date.", "Already up to date"));
    assert!(!contains_sub("Updating", "Already up to date"));
    assert!(str_eq("abc", "abc"));
    assert!(!str_eq("abc", "abd"));
}

#[test]
fn test_find_collab_dir_prefers_to() {
    assert_eq!(
        find_collab_dir("/d", "Alex", true, true).unwrap(),
        "/d/collabs/alex/to"
    );
    assert_eq!(
        find_collab_dir("/d", "Alex", false, true).unwrap(),
        "/d/collabs/alex/from"
    );
    assert!(find_collab_dir("/d", "Alex", false, false).is_none());
}

#[test]
fn test_empty_label_array_roundtrip() {
    let mut reg = Registry::new();
    reg.insert(Collaborator {
        labels: vec![],
        repo: "r/x".to_string(),
        github_user: "a".to_string(),
        name: String::new(),
        account: String::new(),
    });
    let saved = save_collaborators(&reg);
    assert!(saved.contains("labels = []"));
    let back = load_collaborators(&saved, "").unwrap();
    assert_eq!(back.get("a").unwrap().labels, Vec::<String>::new());
}

#[test]
fn test_parse_error_exit_code() {
    let err = match load_collaborators("not a section\n", "") {
        Err(e) => e,
        Ok(_) => panic!("malformed text must not load"),
    };
    assert_eq!(err.exit_code(), 1);
    assert_eq!(corrkit::CollabError::EnvironmentFailure.exit_code(), 2);
}

#[test]
fn test_resolve_from_name() {
    let owner = "Owner".to_string();
    assert_eq!(
        resolve_from_name(Some("Flag".to_string()), Some(&owner)).unwrap(),
        "Flag"
    );
    assert_eq!(resolve_from_name(None, Some(&owner)).unwrap(), "Owner");
    assert!(resolve_from_name(None, None).is_err());
    let empty = String::new();
    assert!(resolve_from_name(None, Some(&empty)).is_err());
}

#[test]
fn test_migrate_state_legacy_labels() {
    let legacy = SyncState {
        accounts: vec![],
        labels: vec![LabelEntry {
            label: "inbox".to_string(),
            state: LabelState { uidvalidity: 7, last_uid: 42 },
        }],
    };
    let migrated = migrate_state(legacy);
    assert_eq!(migrated.accounts.len(), 1);
    assert_eq!(migrated.accounts[0].account, "_legacy");
    assert_eq!(migrated.accounts[0].state.labels.len(), 1);
    assert_eq!(migrated.accounts[0].state.labels[0].label, "inbox");
    assert_eq!(migrated.accounts[0].state.labels[0].state.last_uid, 42);
    assert!(migrated.labels.is_empty());

    let modern = SyncState {
        accounts: vec![corrkit::types::AccountEntry {
            account: "work".to_string(),
            state: AccountSyncState { labels: vec![] },
        }],
        labels: vec![],
    };
    let kept = migrate_state(modern);
    assert_eq!(kept.accounts.len(), 1);
    assert_eq!(kept.accounts[0].account, "work");
}
