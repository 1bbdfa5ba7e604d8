//! Commit classification: mapping one commit's summary line to an
//! impact category, stripping a recognized conventional prefix.

use vstd::prelude::*;

use crate::git::CommitInfo;
use crate::text::{
    eq_ignore_case, find_char, find_from, is_space, is_space_char, lemma_find_from_props,
    lemma_skip_spaces_props, skip_spaces, skip_spaces_from, str_eq_ignore_case,
};
use crate::version::Version;

verus! {

/// The impact tier of one commit, deciding the version bump it asks for.
///
/// `Ignore` marks commits that are left out of the changelog entirely.
#[derive(Debug, Clone, Copy, PartialEq, Eq, Structural)]
pub enum CommitCategory {
    Major,
    Minor,
    Patch,
    Ignore,
}

/// The components of the semantic version that the text denotes, if any.
pub uninterp spec fn semver_of(s: Seq<char>) -> Option<(u64, u64, u64)>;

/// Relies on `semver::Version::parse`: whether a text is a valid semantic
/// version and, when it is, its three numeric components are functions of
/// the text alone. A valid version is built from ASCII digits, letters,
/// `-`, `+` and `.` only, so a text holding a colon never parses.
#[verifier::external_body]
fn parse_semver(s: &str) -> (r: Option<(u64, u64, u64)>)
    ensures
        r == semver_of(s@),
        r is Some ==> forall|i: int| 0 <= i < s@.len() ==> s@[i] != ':',
{
    match semver::Version::parse(s) {
        Ok(v) => Some((v.major, v.minor, v.patch)),
        Err(_) => None,
    }
}

/// Where the version text of a release marker begins: one optional `v`
/// after the arrow and space is skipped, nothing more.
pub open spec fn version_start(s: Seq<char>) -> int {
    if 3 < s.len() && s[3] == 'v' {
        4
    } else {
        3
    }
}

/// The version a release-marker summary names: the text must open with
/// `-> `, and the rest, after one optional leading `v`, must be a valid
/// semantic version. A valid version never holds a colon, which the
/// guard records.
pub open spec fn release_version_of(s: Seq<char>) -> Option<Version> {
    if s.len() >= 3 && s[0] == '-' && s[1] == '>' && s[2] == ' ' {
        let rest = s.subrange(version_start(s), s.len() as int);
        if forall|i: int| 0 <= i < rest.len() ==> rest[i] != ':' {
            match semver_of(rest) {
                Some(t) => Some(Version { major: t.0, minor: t.1, patch: t.2 }),
                None => None,
            }
        } else {
            None
        }
    } else {
        None
    }
}

/// Checks whether a summary is a release marker, `-> v1.2.3` or
/// `-> 1.2.3`, and returns the version it names.
pub fn is_release_message(subject: &str) -> (r: Option<Version>)
    ensures
        r == release_version_of(subject@),
{
    let n = subject.unicode_len();
    if n < 3 {
        return None;
    }
    if subject.get_char(0) != '-' || subject.get_char(1) != '>' || subject.get_char(2) != ' ' {
        return None;
    }
    let j: usize = if n > 3 && subject.get_char(3) == 'v' {
        4
    } else {
        3
    };
    let rest = subject.substring_char(j, n);
    match parse_semver(rest) {
        Some(t) => Some(Version { major: t.0, minor: t.1, patch: t.2 }),
        None => None,
    }
}

/// The category a conventional-commit type token maps to, looked up
/// case-insensitively, or nothing for an unrecognized token.
pub open spec fn prefix_category(p: Seq<char>) -> Option<CommitCategory> {
    if eq_ignore_case(p, "docs"@) || eq_ignore_case(p, "doc"@) || eq_ignore_case(p, "style"@)
        || eq_ignore_case(p, "chore"@) || eq_ignore_case(p, "test"@) {
        Some(CommitCategory::Ignore)
    } else if eq_ignore_case(p, "tweak"@) || eq_ignore_case(p, "tweaks"@) {
        Some(CommitCategory::Patch)
    } else if eq_ignore_case(p, "fix"@) || eq_ignore_case(p, "fixes"@) || eq_ignore_case(
        p,
        "perf"@,
    ) || eq_ignore_case(p, "refactor"@) || eq_ignore_case(p, "patch"@) {
        Some(CommitCategory::Patch)
    } else if eq_ignore_case(p, "feat"@) || eq_ignore_case(p, "minor"@) {
        Some(CommitCategory::Minor)
    } else if eq_ignore_case(p, "breaking"@) || eq_ignore_case(p, "major"@) {
        Some(CommitCategory::Major)
    } else {
        None
    }
}

/// Maps a commit message type token to its category, or nothing when the
/// token is unrecognized.
pub fn prefix_mapping(prefix: &str) -> (r: Option<CommitCategory>)
    ensures
        r == prefix_category(prefix@),
{
    if str_eq_ignore_case(prefix, "docs") || str_eq_ignore_case(prefix, "doc")
        || str_eq_ignore_case(prefix, "style") || str_eq_ignore_case(prefix, "chore")
        || str_eq_ignore_case(prefix, "test") {
        Some(CommitCategory::Ignore)
    } else if str_eq_ignore_case(prefix, "tweak") || str_eq_ignore_case(prefix, "tweaks") {
        Some(CommitCategory::Patch)
    } else if str_eq_ignore_case(prefix, "fix") || str_eq_ignore_case(prefix, "fixes")
        || str_eq_ignore_case(prefix, "perf") || str_eq_ignore_case(prefix, "refactor")
        || str_eq_ignore_case(prefix, "patch") {
        Some(CommitCategory::Patch)
    } else if str_eq_ignore_case(prefix, "feat") || str_eq_ignore_case(prefix, "minor") {
        Some(CommitCategory::Minor)
    } else if str_eq_ignore_case(prefix, "breaking") || str_eq_ignore_case(prefix, "major") {
        Some(CommitCategory::Major)
    } else {
        None
    }
}

/// A summary in the scoped conventional form `type(scope): rest`: the
/// type runs to the first `(`, the scope to the first `)` after it, a
/// colon and at least one blank follow, and the rest begins past the run
/// of blanks. Yields the type token and the rest.
pub open spec fn scoped_match(s: Seq<char>) -> Option<(Seq<char>, Seq<char>)> {
    match find_from(s, '(', 0) {
        Some(p1) => if p1 >= 1 {
            match find_from(s, ')', p1 + 1) {
                Some(p2) => if p2 > p1 + 1 && p2 + 2 < s.len() && s[p2 + 1] == ':' && is_space(
                    s[p2 + 2],
                ) {
                    Some(
                        (
                            s.subrange(0, p1),
                            s.subrange(skip_spaces(s, p2 + 2), s.len() as int),
                        ),
                    )
                } else {
                    None
                },
                None => None,
            }
        } else {
            None
        },
        None => None,
    }
}

/// A summary in the simple conventional form `type: rest`: the type runs
/// to the first colon, at least one blank follows, and the rest begins
/// past the run of blanks. Yields the type token and the rest.
pub open spec fn simple_match(s: Seq<char>) -> Option<(Seq<char>, Seq<char>)> {
    match find_from(s, ':', 0) {
        Some(c1) => if c1 >= 1 && c1 + 1 < s.len() && is_space(s[c1 + 1]) {
            Some((s.subrange(0, c1), s.subrange(skip_spaces(s, c1 + 1), s.len() as int)))
        } else {
            None
        },
        None => None,
    }
}

/// What classification decides for a summary: the category found, if
/// any, and the summary as it stands afterwards. Release markers and
/// bare tweak keywords are recognized first and leave the text alone;
/// then the scoped form is tried, then the simple form, each rewriting
/// the summary to the rest when its type token is recognized.
pub open spec fn classify_spec(s: Seq<char>) -> (Option<CommitCategory>, Seq<char>) {
    if release_version_of(s) is Some {
        (Some(CommitCategory::Ignore), s)
    } else if eq_ignore_case(s, "tweak"@) || eq_ignore_case(s, "tweaks"@) {
        (Some(CommitCategory::Patch), s)
    } else {
        match scoped_match(s) {
            Some(m) => match prefix_category(m.0) {
                Some(cat) => (Some(cat), m.1),
                None => (None, s),
            },
            None => match simple_match(s) {
                Some(m) => match prefix_category(m.0) {
                    Some(cat) => (Some(cat), m.1),
                    None => (None, s),
                },
                None => (None, s),
            },
        }
    }
}

fn scoped_bounds(s: &str) -> (r: Option<(usize, usize)>)
    ensures
        match r {
            Some(b) => {
                &&& scoped_match(s@) == Some(
                    (
                        s@.subrange(0, b.0 as int),
                        s@.subrange(skip_spaces(s@, b.1 + 2), s@.len() as int),
                    ),
                )
                &&& 1 <= b.0 < b.1
                &&& b.1 + 2 < s@.len()
            },
            None => scoped_match(s@) is None,
        },
{
    let n = s.unicode_len();
    match find_char(s, '(', 0) {
        Some(p1) => {
            if p1 < 1 {
                return None;
            }
            proof {
                lemma_find_from_props(s@, '(', 0);
            }
            match find_char(s, ')', p1 + 1) {
                Some(p2) => {
                    proof {
                        lemma_find_from_props(s@, ')', p1 + 1);
                    }
                    if p2 > p1 + 1 && n - p2 > 2 && s.get_char(p2 + 1) == ':' && is_space_char(
                        s.get_char(p2 + 2),
                    ) {
                        Some((p1, p2))
                    } else {
                        None
                    }
                },
                None => None,
            }
        },
        None => None,
    }
}

fn simple_bounds(s: &str) -> (r: Option<usize>)
    ensures
        match r {
            Some(c1) => {
                &&& simple_match(s@) == Some(
                    (
                        s@.subrange(0, c1 as int),
                        s@.subrange(skip_spaces(s@, c1 + 1), s@.len() as int),
                    ),
                )
                &&& 1 <= c1
                &&& c1 + 1 < s@.len()
            },
            None => simple_match(s@) is None,
        },
{
    let n = s.unicode_len();
    match find_char(s, ':', 0) {
        Some(c1) => {
            proof {
                lemma_find_from_props(s@, ':', 0);
            }
            if c1 >= 1 && n - c1 > 1 && is_space_char(s.get_char(c1 + 1)) {
                Some(c1)
            } else {
                None
            }
        },
        None => None,
    }
}

/// Classifies a summary text; when a recognized prefix was stripped the
/// rewritten summary is returned beside the category.
fn classify_summary(s: &str) -> (r: (Option<CommitCategory>, Option<String>))
    ensures
        r.0 == classify_spec(s@).0,
        match r.1 {
            Some(ns) => ns@ == classify_spec(s@).1,
            None => classify_spec(s@).1 == s@,
        },
{
    if is_release_message(s).is_some() {
        return (Some(CommitCategory::Ignore), None);
    }
    if str_eq_ignore_case(s, "tweak") || str_eq_ignore_case(s, "tweaks") {
        return (Some(CommitCategory::Patch), None);
    }
    let n = s.unicode_len();
    if let Some((p1, p2)) = scoped_bounds(s) {
        let ty = s.substring_char(0, p1);
        match prefix_mapping(ty) {
            Some(cat) => {
                proof {
                    lemma_skip_spaces_props(s@, p2 + 2);
                }
                let e = skip_spaces_from(s, p2 + 2);
                let rest = s.substring_char(e, n).to_owned();
                (Some(cat), Some(rest))
            },
            None => (None, None),
        }
    } else if let Some(c1) = simple_bounds(s) {
        let ty = s.substring_char(0, c1);
        match prefix_mapping(ty) {
            Some(cat) => {
                proof {
                    lemma_skip_spaces_props(s@, c1 + 1);
                }
                let e = skip_spaces_from(s, c1 + 1);
                let rest = s.substring_char(e, n).to_owned();
                (Some(cat), Some(rest))
            },
            None => (None, None),
        }
    } else {
        (None, None)
    }
}

/// Law: a summary in the scoped conventional form whose type token is
/// recognized is classified to the token's category, and the summary
/// becomes exactly the rest after the separator.
pub proof fn lemma_recognized_scoped_prefix(s: Seq<char>, ty: Seq<char>, rest: Seq<char>)
    requires
        scoped_match(s) == Some((ty, rest)),
        prefix_category(ty) is Some,
    ensures
        classify_spec(s).0 == prefix_category(ty),
        classify_spec(s).1 == rest,
{
    lemma_find_from_props(s, '(', 0);
    let p1 = find_from(s, '(', 0)->Some_0;
    lemma_find_from_props(s, ')', p1 + 1);
    let p2 = find_from(s, ')', p1 + 1)->Some_0;
    assert(s[p2 + 1] == ':');
    lemma_colon_blocks_other_rules(s, p2 + 1);
}

/// Law: a summary in the simple conventional form, not also in the
/// scoped form, whose type token is recognized is classified to the
/// token's category, and the summary becomes exactly the rest after the
/// separator.
pub proof fn lemma_recognized_simple_prefix(s: Seq<char>, ty: Seq<char>, rest: Seq<char>)
    requires
        scoped_match(s) is None,
        simple_match(s) == Some((ty, rest)),
        prefix_category(ty) is Some,
    ensures
        classify_spec(s).0 == prefix_category(ty),
        classify_spec(s).1 == rest,
{
    lemma_find_from_props(s, ':', 0);
    let c1 = find_from(s, ':', 0)->Some_0;
    assert(s[c1] == ':');
    lemma_colon_blocks_other_rules(s, c1);
}

/// A summary holding a colon is neither a release marker nor a bare
/// tweak keyword, so the conventional-prefix rules are the ones that
/// decide it.
proof fn lemma_colon_blocks_other_rules(s: Seq<char>, cp: int)
    requires
        0 <= cp < s.len(),
        s[cp] == ':',
    ensures
        release_version_of(s) is None,
        !eq_ignore_case(s, "tweak"@),
        !eq_ignore_case(s, "tweaks"@),
{
    reveal_strlit("tweak");
    reveal_strlit("tweaks");
    if s.len() >= 3 && s[0] == '-' && s[1] == '>' && s[2] == ' ' {
        let j = version_start(s);
        assert(cp >= 3);
        assert(cp >= j);
        let rest = s.subrange(j, s.len() as int);
        assert(rest[cp - j] == ':');
        assert(release_version_of(s) is None);
    }
    if eq_ignore_case(s, "tweak"@) {
        assert(crate::text::lower_code(s[cp]) == crate::text::lower_code("tweak"@[cp]));
        assert(false);
    }
    if eq_ignore_case(s, "tweaks"@) {
        assert(crate::text::lower_code(s[cp]) == crate::text::lower_code("tweaks"@[cp]));
        assert(false);
    }
}

/// Law: whenever classification finds no category, the summary is left
/// exactly as it was.
pub proof fn lemma_unclassified_unchanged(s: Seq<char>)
    ensures
        classify_spec(s).0 is None ==> classify_spec(s).1 == s,
{
}

/// Law: a summary that is no release marker, no bare tweak keyword, and
/// whose prefix, if the conventional forms find one at all, is
/// unrecognized, gets no category, and the summary is unchanged.
pub proof fn lemma_unrecognized_prefix_none(s: Seq<char>)
    requires
        release_version_of(s) is None,
        !eq_ignore_case(s, "tweak"@),
        !eq_ignore_case(s, "tweaks"@),
        scoped_match(s) is Some ==> prefix_category(scoped_match(s)->Some_0.0) is None,
        scoped_match(s) is None && simple_match(s) is Some ==> prefix_category(
            simple_match(s)->Some_0.0,
        ) is None,
    ensures
        classify_spec(s).0 is None,
        classify_spec(s).1 == s,
{
}

/// Law: classification is a function of the original summary text alone,
/// so running it again on the same message yields the same category.
pub proof fn lemma_classify_deterministic(s1: Seq<char>, s2: Seq<char>)
    requires
        s1 == s2,
    ensures
        classify_spec(s1).0 == classify_spec(s2).0,
{
}

/// Classifies a commit from its summary line. When a recognized
/// conventional prefix, scoped or simple, is found, it is stripped from
/// the commit's summary; otherwise the commit is left untouched and, if
/// no rule applies, no category is returned.
pub fn auto_classify(commit: &mut CommitInfo) -> (r: Option<CommitCategory>)
    ensures
        r == classify_spec(old(commit).summary@).0,
        final(commit).summary@ == classify_spec(old(commit).summary@).1,
        final(commit).id == old(commit).id,
        final(commit).short_id == old(commit).short_id,
        final(commit).body == old(commit).body,
{
    let (cat, rewritten) = classify_summary(commit.summary.as_str());
    if let Some(ns) = rewritten {
        commit.summary = ns;
    }
    cat
}

} // verus!
