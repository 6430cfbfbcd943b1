//! Tests for draft rendering and file-name candidates.

use corrkit::draft::{render, unique_path};

#[test]
fn test_render_minimal() {
    let out = render("Hello", "a@b.com", None, None, None, None, "");
    assert!(out.starts_with("# Hello\n"));
    assert!(out.contains("**To**: a@b.com\n"));
    assert!(out.contains("**Status**: draft\n"));
    assert!(!out.contains("**Author**"));
    assert!(!out.contains("**CC**"));
    assert!(out.ends_with("---\n\n"));
}

#[test]
fn test_render_all_fields() {
    let out = render(
        "Test",
        "a@b.com",
        Some("c@d.com"),
        Some("personal"),
        Some("me@x.com"),
        Some("<msg-1>"),
        "Alice",
    );
    assert!(out.contains("**CC**: c@d.com\n"));
    assert!(out.contains("**Author**: Alice\n"));
    assert!(out.contains("**Account**: personal\n"));
    assert!(out.contains("**From**: me@x.com\n"));
    assert!(out.contains("**In-Reply-To**: <msg-1>\n"));
}

#[test]
fn test_render_exact_minimal() {
    let out = render("Hi", "x@y.z", None, None, None, None, "");
    assert_eq!(out, "# Hi\n\n**To**: x@y.z\n**Status**: draft\n\n---\n\n");
}

#[test]
fn test_unique_path_first_candidate() {
    assert_eq!(unique_path("2026-02-22", "hello", 1), "2026-02-22-hello.md");
}

#[test]
fn test_unique_path_numbered_candidates() {
    assert_eq!(unique_path("2026-02-22", "hello", 2), "2026-02-22-hello-2.md");
    assert_eq!(unique_path("2026-02-22", "hello", 3), "2026-02-22-hello-3.md");
    assert_eq!(unique_path("2026-02-22", "hello", 12), "2026-02-22-hello-12.md");
}
