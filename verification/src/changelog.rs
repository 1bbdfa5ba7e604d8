//! Release section rendering and changelog merging.

use vstd::prelude::*;

use crate::classify::CommitCategory;
use crate::git::{CommitInfo, RemoteInfo};
use crate::text::{dec_str, is_digit, is_digit_char, is_space, is_space_char, u64_to_string};
use crate::version::{Version, version_text};

verus! {

/// A squashed pull-request issue reference at paren position `p` with
/// closing paren at `q`: whitespace, then `(#` followed by at least one
/// digit and `)`.
pub open spec fn sq_valid_at(s: Seq<char>, p: int, q: int) -> bool {
    &&& 1 <= p
    &&& p + 2 < q < s.len()
    &&& s[p] == '('
    &&& s[p + 1] == '#'
    &&& s[q] == ')'
    &&& (forall|i: int| p + 2 <= i < q ==> is_digit(s[i]))
    &&& is_space(s[p - 1])
}

/// For one paren position the closing paren of a squashed reference is
/// unique: the digits run ends at the first non-digit.
pub proof fn lemma_sq_q_unique(s: Seq<char>, p: int, q1: int, q2: int)
    requires
        sq_valid_at(s, p, q1),
        sq_valid_at(s, p, q2),
    ensures
        q1 == q2,
{
    if q1 < q2 {
        assert(is_digit(s[q1]));
    }
    if q2 < q1 {
        assert(is_digit(s[q2]));
    }
}

/// The first squashed issue reference whose paren position is at or
/// after `p`.
pub open spec fn sq_find_from(s: Seq<char>, p: int) -> Option<(int, int)>
    decreases s.len() - p,
{
    if p < 0 || p >= s.len() {
        None
    } else if exists|q: int| sq_valid_at(s, p, q) {
        Some((p, choose|q: int| sq_valid_at(s, p, q)))
    } else {
        sq_find_from(s, p + 1)
    }
}

/// The start of the run of whitespace that ends just before `p`.
pub open spec fn space_run_start(s: Seq<char>, p: int) -> int
    decreases p,
{
    if 0 < p <= s.len() && is_space(s[p - 1]) {
        space_run_start(s, p - 1)
    } else {
        p
    }
}

fn space_start_before(s: &str, p: usize) -> (w: usize)
    requires
        p <= s@.len(),
    ensures
        w == space_run_start(s@, p as int),
        w <= p,
{
    let mut w = p;
    while w > 0
        invariant_except_break
            w <= p <= s@.len(),
            space_run_start(s@, p as int) == space_run_start(s@, w as int),
        ensures
            w <= p,
            space_run_start(s@, p as int) == w,
        decreases w,
    {
        if !is_space_char(s.get_char(w - 1)) {
            break;
        }
        w = w - 1;
    }
    w
}

/// The first squashed issue reference of the text: the removal start,
/// the paren position and the closing paren position.
pub open spec fn squashed_find(s: Seq<char>) -> Option<(int, int, int)> {
    match sq_find_from(s, 0) {
        Some(pq) => Some((space_run_start(s, pq.0), pq.0, pq.1)),
        None => None,
    }
}

fn squashed_bounds(s: &str) -> (r: Option<(usize, usize, usize)>)
    ensures
        match r {
            Some(b) => {
                &&& squashed_find(s@) == Some((b.0 as int, b.1 as int, b.2 as int))
                &&& b.0 <= b.1
                &&& 1 <= b.1
                &&& b.1 + 2 < b.2 < s@.len()
            },
            None => squashed_find(s@) is None,
        },
{
    let n = s.unicode_len();
    let mut p: usize = 0;
    while p < n
        invariant
            n == s@.len(),
            p <= n,
            sq_find_from(s@, 0) == sq_find_from(s@, p as int),
        decreases n - p,
    {
        if p >= 1 && s.get_char(p) == '(' && n - p > 2 && s.get_char(p + 1) == '#'
            && is_space_char(s.get_char(p - 1)) {
            let mut j: usize = p + 2;
            while j < n
                invariant_except_break
                    n == s@.len(),
                    p + 2 <= j <= n,
                    forall|k: int| p + 2 <= k < j ==> is_digit(s@[k]),
                ensures
                    p + 2 <= j <= n,
                    forall|k: int| p + 2 <= k < j ==> is_digit(s@[k]),
                    j < n ==> !is_digit(s@[j as int]),
                decreases n - j,
            {
                if !is_digit_char(s.get_char(j)) {
                    break;
                }
                j = j + 1;
            }
            if j < n && j > p + 2 && s.get_char(j) == ')' {
                proof {
                    assert(sq_valid_at(s@, p as int, j as int));
                    let qq = choose|q: int| sq_valid_at(s@, p as int, q);
                    lemma_sq_q_unique(s@, p as int, qq, j as int);
                }
                let w = space_start_before(s, p);
                return Some((w, p, j));
            }
            proof {
                assert forall|q: int| !sq_valid_at(s@, p as int, q) by {
                    if sq_valid_at(s@, p as int, q) {
                        if q < j {
                            assert(is_digit(s@[q]));
                        } else if q == j {
                            assert(j < n && j > p + 2 && s@[j as int] == ')');
                        } else {
                            assert(j < n) by {
                                if j == n {
                                    assert(is_digit(s@[q]));
                                }
                            }
                            assert(is_digit(s@[j as int]));
                        }
                    }
                }
            }
        } else {
            proof {
                assert forall|q: int| !sq_valid_at(s@, p as int, q) by {}
            }
        }
        p = p + 1;
    }
    None
}

/// A trailing issue reference with its hash mark at `h`: whitespace,
/// then `#` and digits running to the very end of the text.
pub open spec fn tr_valid_at(s: Seq<char>, h: int) -> bool {
    &&& 1 <= h
    &&& h + 1 < s.len()
    &&& s[h] == '#'
    &&& (forall|i: int| h + 1 <= i < s.len() ==> is_digit(s[i]))
    &&& is_space(s[h - 1])
}

/// A text carries at most one trailing issue reference.
pub proof fn lemma_tr_unique(s: Seq<char>, h1: int, h2: int)
    requires
        tr_valid_at(s, h1),
        tr_valid_at(s, h2),
    ensures
        h1 == h2,
{
    if h1 < h2 {
        assert(is_digit(s[h2]));
    }
    if h2 < h1 {
        assert(is_digit(s[h1]));
    }
}

/// The trailing issue reference of the text, if any: the removal start
/// and the hash position.
pub open spec fn trailing_find(s: Seq<char>) -> Option<(int, int)> {
    if exists|h: int| tr_valid_at(s, h) {
        let h = choose|h: int| tr_valid_at(s, h);
        Some((space_run_start(s, h), h))
    } else {
        None
    }
}

fn trailing_bounds(s: &str) -> (r: Option<(usize, usize)>)
    ensures
        match r {
            Some(b) => {
                &&& trailing_find(s@) == Some((b.0 as int, b.1 as int))
                &&& b.0 <= b.1
                &&& 1 <= b.1
                &&& b.1 + 1 < s@.len()
            },
            None => trailing_find(s@) is None,
        },
{
    let n = s.unicode_len();
    let mut j: usize = n;
    while j > 0
        invariant_except_break
            n == s@.len(),
            j <= n,
            forall|k: int| j <= k < n ==> is_digit(s@[k]),
        ensures
            j <= n,
            forall|k: int| j <= k < n ==> is_digit(s@[k]),
            j > 0 ==> !is_digit(s@[j - 1]),
        decreases j,
    {
        if !is_digit_char(s.get_char(j - 1)) {
            break;
        }
        j = j - 1;
    }
    if j < n && j >= 2 && s.get_char(j - 1) == '#' && is_space_char(s.get_char(j - 2)) {
        let h = j - 1;
        proof {
            assert(tr_valid_at(s@, h as int));
            let hh = choose|h2: int| tr_valid_at(s@, h2);
            lemma_tr_unique(s@, hh, h as int);
        }
        let w = space_start_before(s, h);
        Some((w, h))
    } else {
        proof {
            assert forall|h: int| !tr_valid_at(s@, h) by {
                if tr_valid_at(s@, h) {
                    assert(!is_digit(s@[h]));
                    assert(h < j);
                    assert(h >= j - 1);
                    assert(h == j - 1);
                    assert(j < n && j >= 2 && s@[j - 1] == '#' && is_space(s@[j - 2]));
                }
            }
        }
        None
    }
}

/// The title once its first issue reference is removed, and the digits
/// of that reference: a squashed `(#N)` form is looked for first,
/// anywhere in the text, then a trailing `#N` form at the very end;
/// the matched part, with the blanks before it, is cut out.
pub open spec fn issue_split(t: Seq<char>) -> (Seq<char>, Option<Seq<char>>) {
    match squashed_find(t) {
        Some(b) => (
            t.subrange(0, b.0) + t.subrange(b.2 + 1, t.len() as int),
            Some(t.subrange(b.1 + 2, b.2)),
        ),
        None => match trailing_find(t) {
            Some(b) => (t.subrange(0, b.0), Some(t.subrange(b.1 + 1, t.len() as int))),
            None => (t, None),
        },
    }
}

/// Splits a bullet title into the displayed text and the referenced
/// issue number, if one is attached.
fn split_issue(s: &str) -> (r: (String, Option<String>))
    ensures
        r.0@ == issue_split(s@).0,
        match r.1 {
            Some(id) => issue_split(s@).1 == Some(id@),
            None => issue_split(s@).1 is None,
        },
{
    let n = s.unicode_len();
    if let Some((w, p, q)) = squashed_bounds(s) {
        let mut title = s.substring_char(0, w).to_owned();
        title.append(s.substring_char(q + 1, n));
        let id = s.substring_char(p + 2, q).to_owned();
        (title, Some(id))
    } else if let Some((w, h)) = trailing_bounds(s) {
        let title = s.substring_char(0, w).to_owned();
        let id = s.substring_char(h + 1, n).to_owned();
        (title, Some(id))
    } else {
        (s.to_owned(), None)
    }
}

/// A calendar date, rendered as `YYYY-MM-DD`.
#[derive(Debug, Clone, Copy, PartialEq, Eq, Structural)]
pub struct Date {
    pub year: u64,
    pub month: u64,
    pub day: u64,
}

/// `n` in decimal, zero-padded to at least four digits.
pub open spec fn pad4(n: nat) -> Seq<char> {
    if n < 10 {
        "000"@ + dec_str(n)
    } else if n < 100 {
        "00"@ + dec_str(n)
    } else if n < 1000 {
        "0"@ + dec_str(n)
    } else {
        dec_str(n)
    }
}

/// `n` in decimal, zero-padded to at least two digits.
pub open spec fn pad2(n: nat) -> Seq<char> {
    if n < 10 {
        "0"@ + dec_str(n)
    } else {
        dec_str(n)
    }
}

/// The text of a date: year, month and day zero-padded and
/// dash-separated.
pub open spec fn date_text(d: Date) -> Seq<char> {
    pad4(d.year as nat) + "-"@ + pad2(d.month as nat) + "-"@ + pad2(d.day as nat)
}

impl Date {
    pub fn new(year: u64, month: u64, day: u64) -> (r: Date)
        ensures
            r == (Date { year, month, day }),
    {
        Date { year, month, day }
    }

    /// Renders the date as `YYYY-MM-DD`.
    pub fn to_text(&self) -> (s: String)
        ensures
            s@ == date_text(*self),
    {
        let mut s = String::new();
        if self.year < 10 {
            s.append("000");
        } else if self.year < 100 {
            s.append("00");
        } else if self.year < 1000 {
            s.append("0");
        }
        let ys = u64_to_string(self.year);
        s.append(ys.as_str());
        s.append("-");
        if self.month < 10 {
            s.append("0");
        }
        let ms = u64_to_string(self.month);
        s.append(ms.as_str());
        s.append("-");
        if self.day < 10 {
            s.append("0");
        }
        let ds = u64_to_string(self.day);
        s.append(ds.as_str());
        proof {
            reveal_strlit("000");
            reveal_strlit("00");
            reveal_strlit("0");
            assert("000"@ =~= "0"@ + "0"@ + "0"@);
            assert("00"@ =~= "0"@ + "0"@);
            assert(s@ =~= date_text(*self));
        }
        s
    }
}

/// The commits of one release keyed by impact category, each list in
/// insertion order. Ignored commits are never held here.
#[derive(Debug, Clone)]
pub struct GroupedCommits {
    pub major: Vec<CommitInfo>,
    pub minor: Vec<CommitInfo>,
    pub patch: Vec<CommitInfo>,
}

/// The commits of `items` that carry the category `cat`, in order.
pub open spec fn of_category(
    items: Seq<(CommitInfo, CommitCategory)>,
    cat: CommitCategory,
) -> Seq<CommitInfo>
    decreases items.len(),
{
    if items.len() == 0 {
        Seq::empty()
    } else if items.last().1 == cat {
        of_category(items.drop_last(), cat) + seq![items.last().0]
    } else {
        of_category(items.drop_last(), cat)
    }
}

impl GroupedCommits {
    pub fn new() -> (r: GroupedCommits)
        ensures
            r.major@ == Seq::<CommitInfo>::empty(),
            r.minor@ == Seq::<CommitInfo>::empty(),
            r.patch@ == Seq::<CommitInfo>::empty(),
    {
        GroupedCommits { major: Vec::new(), minor: Vec::new(), patch: Vec::new() }
    }

    /// Files one commit under its category; an `Ignore` commit is
    /// dropped.
    pub fn add(&mut self, cat: CommitCategory, c: CommitInfo)
        ensures
            final(self).major@ == if cat == CommitCategory::Major {
                old(self).major@ + seq![c]
            } else {
                old(self).major@
            },
            final(self).minor@ == if cat == CommitCategory::Minor {
                old(self).minor@ + seq![c]
            } else {
                old(self).minor@
            },
            final(self).patch@ == if cat == CommitCategory::Patch {
                old(self).patch@ + seq![c]
            } else {
                old(self).patch@
            },
    {
        match cat {
            CommitCategory::Major => {
                self.major.push(c);
                assert(self.major@ =~= old(self).major@ + seq![c]);
            },
            CommitCategory::Minor => {
                self.minor.push(c);
                assert(self.minor@ =~= old(self).minor@ + seq![c]);
            },
            CommitCategory::Patch => {
                self.patch.push(c);
                assert(self.patch@ =~= old(self).patch@ + seq![c]);
            },
            CommitCategory::Ignore => {
            },
        }
    }

    /// Whether any commit at all was filed.
    pub fn has_any(&self) -> (r: bool)
        ensures
            r == (self.major@.len() > 0 || self.minor@.len() > 0 || self.patch@.len() > 0),
    {
        self.major.len() > 0 || self.minor.len() > 0 || self.patch.len() > 0
    }
}

/// Groups classified commits by category, keeping their order and
/// dropping the ignored ones.
pub fn group_commits(items: Vec<(CommitInfo, CommitCategory)>) -> (g: GroupedCommits)
    ensures
        g.major@ == of_category(items@, CommitCategory::Major),
        g.minor@ == of_category(items@, CommitCategory::Minor),
        g.patch@ == of_category(items@, CommitCategory::Patch),
{
    let ghost orig = items@;
    let mut items = items;
    let len0 = items.len();
    assert(orig.len() == len0);
    let mut g = GroupedCommits::new();
    let mut i: usize = 0;
    while items.len() > 0
        invariant
            i <= orig.len() <= usize::MAX,
            items@ == orig.subrange(i as int, orig.len() as int),
            g.major@ == of_category(orig.take(i as int), CommitCategory::Major),
            g.minor@ == of_category(orig.take(i as int), CommitCategory::Minor),
            g.patch@ == of_category(orig.take(i as int), CommitCategory::Patch),
        decreases items@.len(),
    {
        assert(i < orig.len());
        let pair = items.remove(0);
        proof {
            assert(pair == orig[i as int]);
            assert(orig.take(i + 1).drop_last() =~= orig.take(i as int));
            assert(items@ =~= orig.subrange(i + 1, orig.len() as int));
        }
        let cat = pair.1;
        g.add(cat, pair.0);
        i = i + 1;
    }
    proof {
        assert(orig.take(i as int) =~= orig);
    }
    g
}

/// The base URL a rendering call works with, if remote information is
/// present.
pub open spec fn remote_view(remote: Option<&RemoteInfo>) -> Option<Seq<char>> {
    match remote {
        Some(ri) => Some(ri.base_url@),
        None => None,
    }
}

/// The issue part of a bullet: a link into the issue tracker when a
/// remote is known, the bare number otherwise, nothing when the title
/// carried no reference.
pub open spec fn issue_ref_text(issue: Option<Seq<char>>, base: Option<Seq<char>>) -> Seq<char> {
    match issue {
        Some(id) => match base {
            Some(b) => " ([#"@ + id + "]("@ + b + "issues/"@ + id + "))"@,
            None => " (#"@ + id + ")"@,
        },
        None => Seq::empty(),
    }
}

/// The commit part of a bullet: the short hash, linked when a remote is
/// known.
pub open spec fn commit_ref_text(short: Seq<char>, base: Option<Seq<char>>) -> Seq<char> {
    match base {
        Some(b) => " [`"@ + short + "`]("@ + b + "commit/"@ + short + ")"@,
        None => " `"@ + short + "`"@,
    }
}

/// One bullet line for one commit.
pub open spec fn bullet_text(c: CommitInfo, base: Option<Seq<char>>) -> Seq<char> {
    let ts = issue_split(c.summary@);
    "* "@ + ts.0 + ":"@ + commit_ref_text(c.short_id@, base) + issue_ref_text(ts.1, base) + "\n"@
}

/// The bullet lines of a list of commits, in order.
pub open spec fn bullets_text(cs: Seq<CommitInfo>, base: Option<Seq<char>>) -> Seq<char>
    decreases cs.len(),
{
    if cs.len() == 0 {
        Seq::empty()
    } else {
        bullets_text(cs.drop_last(), base) + bullet_text(cs.last(), base)
    }
}

/// One body subsection: its heading and one bullet per commit, a blank
/// line before and after.
pub open spec fn section_text(
    heading: Seq<char>,
    cs: Seq<CommitInfo>,
    base: Option<Seq<char>>,
) -> Seq<char> {
    "\n### "@ + heading + "\n"@ + bullets_text(cs, base) + "\n"@
}

fn bullet_string(c: &CommitInfo, remote: Option<&RemoteInfo>) -> (out: String)
    ensures
        out@ == bullet_text(*c, remote_view(remote)),
{
    let (title, issue) = split_issue(c.summary.as_str());
    let mut out = "* ".to_owned();
    out.append(title.as_str());
    out.append(":");
    match remote {
        Some(r) => {
            out.append(" [`");
            out.append(c.short_id.as_str());
            out.append("`](");
            out.append(r.base_url.as_str());
            out.append("commit/");
            out.append(c.short_id.as_str());
            out.append(")");
        },
        None => {
            out.append(" `");
            out.append(c.short_id.as_str());
            out.append("`");
        },
    }
    match issue {
        Some(id) => {
            match remote {
                Some(r) => {
                    out.append(" ([#");
                    out.append(id.as_str());
                    out.append("](");
                    out.append(r.base_url.as_str());
                    out.append("issues/");
                    out.append(id.as_str());
                    out.append("))");
                },
                None => {
                    out.append(" (#");
                    out.append(id.as_str());
                    out.append(")");
                },
            }
        },
        None => {
        },
    }
    out.append("\n");
    proof {
        assert(out@ =~= bullet_text(*c, remote_view(remote)));
    }
    out
}

/// Renders one body subsection: the heading line, then one bullet per
/// commit in grouping order, with the issue reference split from the
/// title and both linked when a remote is known.
pub fn format_section(heading: &str, commits: &Vec<CommitInfo>, remote: Option<&RemoteInfo>) -> (out:
    String)
    ensures
        out@ == section_text(heading@, commits@, remote_view(remote)),
{
    let mut out = "\n### ".to_owned();
    out.append(heading);
    out.append("\n");
    let n = commits.len();
    let mut i: usize = 0;
    while i < n
        invariant
            n == commits@.len(),
            i <= n,
            out@ == "\n### "@ + heading@ + "\n"@ + bullets_text(
                commits@.take(i as int),
                remote_view(remote),
            ),
        decreases n - i,
    {
        let b = bullet_string(&commits[i], remote);
        out.append(b.as_str());
        proof {
            assert(commits@.take(i + 1).drop_last() =~= commits@.take(i as int));
            assert(commits@.take(i + 1).last() == commits@[i as int]);
        }
        i = i + 1;
    }
    proof {
        assert(commits@.take(n as int) =~= commits@);
    }
    out.append("\n");
    out
}

/// The header line of a release section: the version, linked to its
/// release tag when a remote is known, and the date.
pub open spec fn header_text(newv: Version, date: Date, base: Option<Seq<char>>) -> Seq<char> {
    match base {
        Some(b) => "## [Version "@ + version_text(newv) + "]("@ + b + "releases/tag/v"@
            + version_text(newv) + ") ("@ + date_text(date) + ")\n"@,
        None => "## Version "@ + version_text(newv) + " ("@ + date_text(date) + ")\n"@,
    }
}

/// The tail of a release section: a comparison link against the
/// previous release when a remote is known and a previous release
/// exists, otherwise a single blank line.
pub open spec fn trailing_text(newv: Version, lastv: Version, base: Option<Seq<char>>) -> Seq<
    char,
> {
    match base {
        Some(b) => if !(lastv.major == 0 && lastv.minor == 0 && lastv.patch == 0) {
            "\n[...full changes]("@ + b + "compare/v"@ + version_text(lastv) + "...v"@
                + version_text(newv) + ")\n\n"@
        } else {
            "\n"@
        },
        None => "\n"@,
    }
}

/// Law: when the previous version is `0.0.0` there is no prior tag to
/// compare against, so the rendered section ends in a single blank line
/// and carries no comparison link, whatever else it holds.
pub proof fn lemma_no_compare_link_for_first_release(
    newv: Version,
    date: Date,
    base: Seq<char>,
    g: GroupedCommits,
)
    ensures
        trailing_text(newv, Version { major: 0, minor: 0, patch: 0 }, Some(base)) == "\n"@,
        release_section_text(
            newv,
            Version { major: 0, minor: 0, patch: 0 },
            date,
            Some(base),
            g,
        ) == header_text(newv, date, Some(base)) + body_text(g, Some(base)) + "\n"@,
{
}

/// The three optional body subsections, each present only when its
/// category holds at least one commit.
pub open spec fn body_text(g: GroupedCommits, base: Option<Seq<char>>) -> Seq<char> {
    (if g.major@.len() > 0 {
        section_text("Breaking changes"@, g.major@, base)
    } else {
        Seq::empty()
    }) + (if g.minor@.len() > 0 {
        section_text("New features"@, g.minor@, base)
    } else {
        Seq::empty()
    }) + (if g.patch@.len() > 0 {
        section_text("Bug fixes"@, g.patch@, base)
    } else {
        Seq::empty()
    })
}

/// The full text of one release section.
pub open spec fn release_section_text(
    newv: Version,
    lastv: Version,
    date: Date,
    base: Option<Seq<char>>,
    g: GroupedCommits,
) -> Seq<char> {
    header_text(newv, date, base) + body_text(g, base) + trailing_text(newv, lastv, base)
}

/// Renders the release section for one version: the header, the
/// subsections for breaking changes, new features and bug fixes that
/// hold commits, and the comparison link against the previous release
/// when one exists and a remote is known.
fn header_string(new_version: &Version, date: Date, remote: Option<&RemoteInfo>) -> (out: String)
    ensures
        out@ == header_text(*new_version, date, remote_view(remote)),
{
    let version_str = new_version.to_text();
    let date_str = date.to_text();
    let mut out = String::new();
    match remote {
        Some(r) => {
            out.append("## [Version ");
            out.append(version_str.as_str());
            out.append("](");
            out.append(r.base_url.as_str());
            out.append("releases/tag/v");
            out.append(version_str.as_str());
            out.append(") (");
            out.append(date_str.as_str());
            out.append(")\n");
        },
        None => {
            out.append("## Version ");
            out.append(version_str.as_str());
            out.append(" (");
            out.append(date_str.as_str());
            out.append(")\n");
        },
    }
    assert(out@ =~= header_text(*new_version, date, remote_view(remote)));
    out
}

fn trailing_string(new_version: &Version, last_version: &Version, remote: Option<&RemoteInfo>) -> (
    out: String)
    ensures
        out@ == trailing_text(*new_version, *last_version, remote_view(remote)),
{
    let mut out = String::new();
    match remote {
        Some(r) => {
            if !last_version.is_zero() {
                let last_str = last_version.to_text();
                let version_str = new_version.to_text();
                out.append("\n[...full changes](");
                out.append(r.base_url.as_str());
                out.append("compare/v");
                out.append(last_str.as_str());
                out.append("...v");
                out.append(version_str.as_str());
                out.append(")\n\n");
            } else {
                out.append("\n");
            }
        },
        None => {
            out.append("\n");
        },
    }
    assert(out@ =~= trailing_text(*new_version, *last_version, remote_view(remote)));
    out
}

/// Renders the release section for one version: the header, the
/// subsections for breaking changes, new features and bug fixes that
/// hold commits, and the comparison link against the previous release
/// when one exists and a remote is known.
pub fn build_release_section(
    new_version: &Version,
    last_version: &Version,
    date: Date,
    remote: Option<&RemoteInfo>,
    grouped: &GroupedCommits,
) -> (out: String)
    ensures
        out@ == release_section_text(
            *new_version,
            *last_version,
            date,
            remote_view(remote),
            *grouped,
        ),
{
    let mut out = header_string(new_version, date, remote);
    if grouped.major.len() > 0 {
        let sec = format_section("Breaking changes", &grouped.major, remote);
        out.append(sec.as_str());
    }
    if grouped.minor.len() > 0 {
        let sec = format_section("New features", &grouped.minor, remote);
        out.append(sec.as_str());
    }
    if grouped.patch.len() > 0 {
        let sec = format_section("Bug fixes", &grouped.patch, remote);
        out.append(sec.as_str());
    }
    assert(out@ =~= header_text(*new_version, date, remote_view(remote)) + body_text(
        *grouped,
        remote_view(remote),
    ));
    let tail = trailing_string(new_version, last_version, remote);
    out.append(tail.as_str());
    out
}

/// Existing changelog content that is nothing but whitespace counts the
/// same as no content at all.
pub open spec fn is_blank(s: Seq<char>) -> bool {
    forall|i: int| 0 <= i < s.len() ==> is_space(s[i])
}

/// What the merged changelog text must be: onto blank or missing
/// content the section is written with the generator footer; otherwise
/// the section is prepended, a blank line apart, and the existing text
/// kept unchanged.
pub open spec fn merge_text(section: Seq<char>, existing: Seq<char>) -> Seq<char> {
    if is_blank(existing) {
        section + "\n--- Generated by changelogger\n"@
    } else {
        section + "\n\n"@ + existing
    }
}

/// Law: whitespace-only existing content merges exactly as missing
/// (empty) content does.
pub proof fn lemma_blank_existing_like_missing(section: Seq<char>, existing: Seq<char>)
    requires
        is_blank(existing),
    ensures
        merge_text(section, existing) == merge_text(section, Seq::<char>::empty()),
{
}

/// Merges a freshly rendered section into existing changelog content;
/// the caller passes the empty string when no changelog exists yet.
pub fn merge_changelog(new_section: &str, existing: &str) -> (out: String)
    ensures
        out@ == merge_text(new_section@, existing@),
{
    let n = existing.unicode_len();
    let mut blank = true;
    let mut i: usize = 0;
    while i < n
        invariant
            n == existing@.len(),
            i <= n,
            blank == (forall|j: int| 0 <= j < i ==> is_space(existing@[j])),
        decreases n - i,
    {
        if !is_space_char(existing.get_char(i)) {
            blank = false;
        }
        i = i + 1;
    }
    let mut out = new_section.to_owned();
    if blank {
        out.append("\n--- Generated by changelogger\n");
    } else {
        out.append("\n\n");
        out.append(existing);
    }
    out
}

} // verus!
