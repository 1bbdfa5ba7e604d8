use changelogger::{auto_classify, is_release_message, prefix_mapping, CommitCategory, CommitInfo, Version};

fn create_commit_info(summary: &str) -> CommitInfo {
    CommitInfo {
        id: "0000000000000000000000000000000000000000".to_string(),
        short_id: "abc1234".to_string(),
        summary: summary.to_string(),
        body: String::new(),
    }
}

#[test]
fn test_is_release_message() {
    assert_eq!(is_release_message("-> v1.2.3"), Some(Version::new(1, 2, 3)));
    assert_eq!(is_release_message("-> 1.2.3"), Some(Version::new(1, 2, 3)));
    assert_eq!(is_release_message("-> v0.1.0"), Some(Version::new(0, 1, 0)));
    assert_eq!(is_release_message("-> invalid"), None);
    assert_eq!(is_release_message("not a release"), None);
    assert_eq!(is_release_message("->"), None);
}

#[test]
fn test_auto_classify_release_message() {
    let mut commit = create_commit_info("-> v1.2.3");
    assert_eq!(auto_classify(&mut commit), Some(CommitCategory::Ignore));
}

#[test]
fn test_auto_classify_tweak() {
    let mut commit = create_commit_info("tweak");
    assert_eq!(auto_classify(&mut commit), Some(CommitCategory::Patch));
    assert_eq!(commit.summary, "tweak");

    let mut commit = create_commit_info("Tweaks");
    assert_eq!(auto_classify(&mut commit), Some(CommitCategory::Patch));
}

#[test]
fn test_auto_classify_conventional_commits() {
    // Major
    let mut commit = create_commit_info("breaking: remove deprecated API");
    assert_eq!(auto_classify(&mut commit), Some(CommitCategory::Major));
    assert_eq!(commit.summary, "remove deprecated API");

    let mut commit = create_commit_info("major: breaking change");
    assert_eq!(auto_classify(&mut commit), Some(CommitCategory::Major));

    // Minor
    let mut commit = create_commit_info("feat: add new feature");
    assert_eq!(auto_classify(&mut commit), Some(CommitCategory::Minor));
    assert_eq!(commit.summary, "add new feature");

    let mut commit = create_commit_info("minor: add something");
    assert_eq!(auto_classify(&mut commit), Some(CommitCategory::Minor));

    // Patch
    let mut commit = create_commit_info("fix: resolve bug");
    assert_eq!(auto_classify(&mut commit), Some(CommitCategory::Patch));
    assert_eq!(commit.summary, "resolve bug");

    let mut commit = create_commit_info("perf: improve performance");
    assert_eq!(auto_classify(&mut commit), Some(CommitCategory::Patch));

    let mut commit = create_commit_info("refactor: clean up code");
    assert_eq!(auto_classify(&mut commit), Some(CommitCategory::Patch));

    // Ignore
    let mut commit = create_commit_info("docs: update README");
    assert_eq!(auto_classify(&mut commit), Some(CommitCategory::Ignore));
    assert_eq!(commit.summary, "update README");

    let mut commit = create_commit_info("style: format code");
    assert_eq!(auto_classify(&mut commit), Some(CommitCategory::Ignore));

    let mut commit = create_commit_info("chore: update dependencies");
    assert_eq!(auto_classify(&mut commit), Some(CommitCategory::Ignore));

    let mut commit = create_commit_info("test: add unit tests");
    assert_eq!(auto_classify(&mut commit), Some(CommitCategory::Ignore));
}

#[test]
fn test_auto_classify_with_scope() {
    let mut commit = create_commit_info("feat(api): add new endpoint");
    assert_eq!(auto_classify(&mut commit), Some(CommitCategory::Minor));
    assert_eq!(commit.summary, "add new endpoint");

    let mut commit = create_commit_info("fix(parser): handle edge case");
    assert_eq!(auto_classify(&mut commit), Some(CommitCategory::Patch));
    assert_eq!(commit.summary, "handle edge case");

    let mut commit = create_commit_info("breaking(api): remove old method");
    assert_eq!(auto_classify(&mut commit), Some(CommitCategory::Major));
    assert_eq!(commit.summary, "remove old method");
}

#[test]
fn test_auto_classify_case_insensitive() {
    let mut commit = create_commit_info("FEAT: uppercase");
    assert_eq!(auto_classify(&mut commit), Some(CommitCategory::Minor));

    let mut commit = create_commit_info("Fix: mixed case");
    assert_eq!(auto_classify(&mut commit), Some(CommitCategory::Patch));

    let mut commit = create_commit_info("DOCS: documentation");
    assert_eq!(auto_classify(&mut commit), Some(CommitCategory::Ignore));
}

#[test]
fn test_auto_classify_unknown_prefix() {
    let mut commit = create_commit_info("unknown: something");
    assert_eq!(auto_classify(&mut commit), None);
    assert_eq!(commit.summary, "unknown: something");
}

#[test]
fn test_auto_classify_no_prefix() {
    let mut commit = create_commit_info("just a regular commit message");
    assert_eq!(auto_classify(&mut commit), None);
    assert_eq!(commit.summary, "just a regular commit message");
}

#[test]
fn test_auto_classify_multiple_colons() {
    let mut commit = create_commit_info("fix: handle error: invalid input");
    assert_eq!(auto_classify(&mut commit), Some(CommitCategory::Patch));
    assert_eq!(commit.summary, "handle error: invalid input");
}

#[test]
fn test_prefix_mapping_tokens() {
    assert_eq!(prefix_mapping("docs"), Some(CommitCategory::Ignore));
    assert_eq!(prefix_mapping("doc"), Some(CommitCategory::Ignore));
    assert_eq!(prefix_mapping("tweaks"), Some(CommitCategory::Patch));
    assert_eq!(prefix_mapping("fixes"), Some(CommitCategory::Patch));
    assert_eq!(prefix_mapping("patch"), Some(CommitCategory::Patch));
    assert_eq!(prefix_mapping("FEAT"), Some(CommitCategory::Minor));
    assert_eq!(prefix_mapping("Breaking"), Some(CommitCategory::Major));
    assert_eq!(prefix_mapping("feature"), None);
    assert_eq!(prefix_mapping(""), None);
}

#[test]
fn test_auto_classify_scoped_unrecognized_blocks_simple() {
    // The scoped form matches first; its unrecognized type is not retried
    // against the simple form.
    let mut commit = create_commit_info("weird(scope): text");
    assert_eq!(auto_classify(&mut commit), None);
    assert_eq!(commit.summary, "weird(scope): text");
}

#[test]
fn test_auto_classify_strips_all_separator_blanks() {
    let mut commit = create_commit_info("fix:   extra blanks");
    assert_eq!(auto_classify(&mut commit), Some(CommitCategory::Patch));
    assert_eq!(commit.summary, "extra blanks");
}

#[test]
fn test_is_release_message_double_v() {
    // only a single optional `v` is allowed before the version
    assert_eq!(is_release_message("-> vv1.2.3"), None);
}

#[test]
fn test_auto_classify_double_v_not_a_release() {
    let mut commit = create_commit_info("-> vv1.2.3");
    assert_eq!(auto_classify(&mut commit), None);
    assert_eq!(commit.summary, "-> vv1.2.3");
}
