use changelogger::{
    auto_classify, build_release_section, format_section, group_commits, merge_changelog,
    CommitCategory, CommitInfo, Date, GroupedCommits, RemoteInfo, Version,
};

fn create_commit_info(short_id: &str, summary: &str) -> CommitInfo {
    CommitInfo {
        id: "0000000000000000000000000000000000000000".to_string(),
        short_id: short_id.to_string(),
        summary: summary.to_string(),
        body: String::new(),
    }
}

fn create_remote_info(base_url: &str) -> RemoteInfo {
    RemoteInfo { base_url: base_url.to_string() }
}

fn grouped_one(cat: CommitCategory, commit: CommitInfo) -> GroupedCommits {
    let mut grouped = GroupedCommits::new();
    grouped.add(cat, commit);
    grouped
}

#[test]
fn test_build_release_section_no_remote() {
    let new_version = Version::new(1, 2, 3);
    let last_version = Version::new(1, 2, 2);
    let date = Date::new(2024, 1, 15);
    let grouped = grouped_one(CommitCategory::Patch, create_commit_info("abc1234", "fix: bug fix"));

    let result = build_release_section(&new_version, &last_version, date, None, &grouped);

    assert!(result.contains("## Version 1.2.3 (2024-01-15)"));
    assert!(result.contains("### Bug fixes"));
    assert!(result.contains("* fix: bug fix:"));
    assert!(result.contains("`abc1234`"));
}

#[test]
fn test_build_release_section_with_remote() {
    let new_version = Version::new(2, 0, 0);
    let last_version = Version::new(1, 9, 9);
    let date = Date::new(2024, 2, 20);
    let remote = create_remote_info("https://github.com/user/repo/");
    let grouped = grouped_one(
        CommitCategory::Major,
        create_commit_info("def5678", "breaking: remove old API"),
    );

    let result = build_release_section(&new_version, &last_version, date, Some(&remote), &grouped);

    assert!(result.contains("## [Version 2.0.0](https://github.com/user/repo/releases/tag/v2.0.0)"));
    assert!(result.contains("### Breaking changes"));
    assert!(result.contains("[`def5678`](https://github.com/user/repo/commit/def5678)"));
    assert!(result.contains("[...full changes](https://github.com/user/repo/compare/v1.9.9...v2.0.0)"));
}

#[test]
fn test_build_release_section_all_categories() {
    let new_version = Version::new(1, 5, 0);
    let last_version = Version::new(1, 4, 0);
    let date = Date::new(2024, 3, 10);
    let mut grouped = GroupedCommits::new();

    grouped.add(CommitCategory::Major, create_commit_info("maj1", "breaking: change"));
    grouped.add(CommitCategory::Minor, create_commit_info("min1", "feat: new feature"));
    grouped.add(CommitCategory::Patch, create_commit_info("pat1", "fix: bug"));

    let result = build_release_section(&new_version, &last_version, date, None, &grouped);

    assert!(result.contains("### Breaking changes"));
    assert!(result.contains("### New features"));
    assert!(result.contains("### Bug fixes"));
    assert!(result.contains("breaking: change"));
    assert!(result.contains("feat: new feature"));
    assert!(result.contains("fix: bug"));
}

#[test]
fn test_build_release_section_initial_version() {
    let new_version = Version::new(1, 0, 0);
    let last_version = Version::new(0, 0, 0);
    let date = Date::new(2024, 1, 1);
    let remote = create_remote_info("https://github.com/user/repo/");
    let grouped = grouped_one(
        CommitCategory::Minor,
        create_commit_info("init1", "feat: initial release"),
    );

    let result = build_release_section(&new_version, &last_version, date, Some(&remote), &grouped);

    // Should not include compare link for 0.0.0
    assert!(!result.contains("compare/v0.0.0"));
}

#[test]
fn test_format_section_with_issue_references() {
    let remote = create_remote_info("https://github.com/user/repo/");
    let commits = vec![
        create_commit_info("abc123", "fix: bug (#42)"),
        create_commit_info("def456", "feat: feature (#123)"),
        create_commit_info("ghi789", "fix: another bug"),
    ];

    let result = format_section("Bug fixes", &commits, Some(&remote));

    assert!(result.contains("### Bug fixes"));
    assert!(result.contains("fix: bug:"));
    assert!(result.contains("([#42](https://github.com/user/repo/issues/42))"));
    assert!(result.contains("([#123](https://github.com/user/repo/issues/123))"));
    assert!(result.contains("fix: another bug:"));
    assert!(!result.contains("(#"));
}

#[test]
fn test_format_section_squashed_issue_format() {
    let remote = create_remote_info("https://github.com/user/repo/");
    let commits = vec![create_commit_info("abc123", "fix: bug (#99)")];

    let result = format_section("Bug fixes", &commits, Some(&remote));

    assert!(result.contains("fix: bug:"));
    assert!(result.contains("([#99](https://github.com/user/repo/issues/99))"));
}

#[test]
fn test_format_section_no_remote() {
    let commits = vec![
        create_commit_info("abc123", "fix: bug (#42)"),
        create_commit_info("def456", "feat: feature"),
    ];

    let result = format_section("Changes", &commits, None);

    assert!(result.contains("### Changes"));
    assert!(result.contains("fix: bug:"));
    assert!(result.contains("(#42)")); // Issue number without link
    assert!(result.contains("`abc123`")); // Commit hash without link
    assert!(result.contains("feat: feature:"));
}

#[test]
fn test_format_section_trailing_issue_format() {
    let remote = create_remote_info("https://github.com/user/repo/");
    let commits = vec![create_commit_info("abc123", "fix: bug #7")];

    let result = format_section("Bug fixes", &commits, Some(&remote));

    assert!(result.contains("* fix: bug:"));
    assert!(result.contains("([#7](https://github.com/user/repo/issues/7))"));
}

#[test]
fn test_write_changelog_new_file() {
    let section = "## Version 1.0.0 (2024-01-01)\n\n### Bug fixes\n* fix: bug\n\n";

    let content = merge_changelog(section, "");

    assert!(content.contains(section));
    assert!(content.contains("--- Generated by changelogger"));
}

#[test]
fn test_write_changelog_existing_file() {
    let existing = "## Version 0.9.0 (2023-12-01)\n\n### Bug fixes\n* old fix\n\n";
    let new_section = "## Version 1.0.0 (2024-01-01)\n\n### Bug fixes\n* new fix\n\n";

    let content = merge_changelog(new_section, existing);

    assert!(content.starts_with(new_section.trim()));
    assert!(content.contains(existing.trim()));
}

#[test]
fn test_write_changelog_empty_existing_file() {
    let existing = "   \n\n  "; // Whitespace only
    let section = "## Version 1.0.0 (2024-01-01)\n\n### Bug fixes\n* fix\n\n";

    let content = merge_changelog(section, existing);

    assert!(content.contains(section));
    assert!(content.contains("--- Generated by changelogger"));
}

#[test]
fn test_merge_blank_existing_same_as_empty() {
    let section = "## Version 1.0.0 (2024-01-01)\n";
    assert_eq!(merge_changelog(section, "   \n\t  \n"), merge_changelog(section, ""));
}

#[test]
fn test_merge_keeps_existing_order() {
    let content = merge_changelog("new", "old");
    assert_eq!(content, "new\n\nold");
}

#[test]
fn test_classified_title_renders_linked_issue() {
    // a commit classified first, then rendered with a remote
    let mut commit = create_commit_info("abc1234", "fix: bug (#42)");
    let cat = auto_classify(&mut commit).unwrap();
    assert_eq!(cat, CommitCategory::Patch);
    assert_eq!(commit.summary, "bug (#42)");

    let remote = create_remote_info("https://github.com/user/repo/");
    let grouped = grouped_one(cat, commit);
    let result = build_release_section(
        &Version::new(1, 0, 1),
        &Version::new(1, 0, 0),
        Date::new(2024, 5, 2),
        Some(&remote),
        &grouped,
    );

    assert!(result.contains(
        "* bug: [`abc1234`](https://github.com/user/repo/commit/abc1234) ([#42](https://github.com/user/repo/issues/42))"
    ));
    assert!(!result.contains("(#42)"));
}

#[test]
fn test_group_commits_order_and_ignore() {
    let items = vec![
        (create_commit_info("a1", "one"), CommitCategory::Patch),
        (create_commit_info("a2", "two"), CommitCategory::Ignore),
        (create_commit_info("a3", "three"), CommitCategory::Major),
        (create_commit_info("a4", "four"), CommitCategory::Patch),
    ];
    let g = group_commits(items);
    assert_eq!(g.major.len(), 1);
    assert_eq!(g.minor.len(), 0);
    assert_eq!(g.patch.len(), 2);
    assert_eq!(g.patch[0].summary, "one");
    assert_eq!(g.patch[1].summary, "four");
    assert!(g.has_any());
}

#[test]
fn test_date_to_text_pads_components() {
    assert_eq!(Date::new(2024, 1, 5).to_text(), "2024-01-05");
    assert_eq!(Date::new(987, 11, 30).to_text(), "0987-11-30");
}
