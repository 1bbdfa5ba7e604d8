//! Character classes and small string scanners shared by the classifier,
//! the URL parser and the renderer.

use vstd::prelude::*;

verus! {

/// The Unicode `White_Space` characters, the class that summary scanning
/// treats as blank.
pub open spec fn is_space(c: char) -> bool {
    let u = c as u32;
    ||| u == 0x9
    ||| u == 0xA
    ||| u == 0xB
    ||| u == 0xC
    ||| u == 0xD
    ||| u == 0x20
    ||| u == 0x85
    ||| u == 0xA0
    ||| u == 0x1680
    ||| (0x2000 <= u && u <= 0x200A)
    ||| u == 0x2028
    ||| u == 0x2029
    ||| u == 0x202F
    ||| u == 0x205F
    ||| u == 0x3000
}

pub fn is_space_char(c: char) -> (r: bool)
    ensures
        r == is_space(c),
{
    let u = c as u32;
    u == 0x9 || u == 0xA || u == 0xB || u == 0xC || u == 0xD || u == 0x20 || u == 0x85
        || u == 0xA0 || u == 0x1680 || (0x2000 <= u && u <= 0x200A) || u == 0x2028 || u == 0x2029
        || u == 0x202F || u == 0x205F || u == 0x3000
}

/// ASCII decimal digits.
pub open spec fn is_digit(c: char) -> bool {
    0x30 <= c as u32 && c as u32 <= 0x39
}

pub fn is_digit_char(c: char) -> (r: bool)
    ensures
        r == is_digit(c),
{
    let u = c as u32;
    0x30 <= u && u <= 0x39
}

/// The code point of `c` with an ASCII capital letter folded to lower case.
pub open spec fn lower_code(c: char) -> u32 {
    let u = c as u32;
    if 0x41 <= u && u <= 0x5A {
        (u + 0x20) as u32
    } else {
        u
    }
}

/// Equality of two texts up to ASCII case.
pub open spec fn eq_ignore_case(a: Seq<char>, b: Seq<char>) -> bool {
    a.len() == b.len() && (forall|i: int| 0 <= i < a.len() ==> lower_code(a[i]) == lower_code(b[i]))
}

pub fn str_eq_ignore_case(a: &str, b: &str) -> (r: bool)
    ensures
        r == eq_ignore_case(a@, b@),
{
    let an = a.unicode_len();
    let bn = b.unicode_len();
    if an != bn {
        return false;
    }
    let mut i: usize = 0;
    while i < an
        invariant
            an == a@.len(),
            bn == b@.len(),
            an == bn,
            i <= an,
            forall|j: int| 0 <= j < i ==> lower_code(a@[j]) == lower_code(b@[j]),
        decreases an - i,
    {
        let ca = a.get_char(i);
        let cb = b.get_char(i);
        let ua = ca as u32;
        let ub = cb as u32;
        let la = if 0x41 <= ua && ua <= 0x5A {
            ua + 0x20
        } else {
            ua
        };
        let lb = if 0x41 <= ub && ub <= 0x5A {
            ub + 0x20
        } else {
            ub
        };
        if la != lb {
            return false;
        }
        i = i + 1;
    }
    true
}

/// The position of the first occurrence of `c` at or after `from`, if any.
pub open spec fn find_from(s: Seq<char>, c: char, from: int) -> Option<int>
    decreases s.len() - from,
{
    if from < 0 || from >= s.len() {
        None
    } else if s[from] == c {
        Some(from)
    } else {
        find_from(s, c, from + 1)
    }
}

/// What a successful or failed search means for the characters of `s`.
pub proof fn lemma_find_from_props(s: Seq<char>, c: char, from: int)
    requires
        0 <= from <= s.len(),
    ensures
        match find_from(s, c, from) {
            Some(i) => from <= i < s.len() && s[i] == c && (forall|j: int|
                from <= j < i ==> s[j] != c),
            None => forall|j: int| from <= j < s.len() ==> s[j] != c,
        },
    decreases s.len() - from,
{
    if from < s.len() && s[from] != c {
        lemma_find_from_props(s, c, from + 1);
    }
}

pub fn find_char(s: &str, c: char, from: usize) -> (r: Option<usize>)
    ensures
        match r {
            Some(i) => find_from(s@, c, from as int) == Some(i as int),
            None => find_from(s@, c, from as int) is None,
        },
{
    let n = s.unicode_len();
    if from >= n {
        return None;
    }
    let mut i: usize = from;
    while i < n
        invariant
            n == s@.len(),
            from <= i <= n,
            find_from(s@, c, from as int) == find_from(s@, c, i as int),
        decreases n - i,
    {
        if s.get_char(i) == c {
            return Some(i);
        }
        i = i + 1;
    }
    None
}

/// The end of the run of whitespace that starts at `from`.
pub open spec fn skip_spaces(s: Seq<char>, from: int) -> int
    decreases s.len() - from,
{
    if from < 0 || from >= s.len() {
        from
    } else if is_space(s[from]) {
        skip_spaces(s, from + 1)
    } else {
        from
    }
}

/// The run between `from` and `skip_spaces` is whitespace and ends at a
/// non-blank character or at the end of the text.
pub proof fn lemma_skip_spaces_props(s: Seq<char>, from: int)
    requires
        0 <= from <= s.len(),
    ensures
        from <= skip_spaces(s, from) <= s.len(),
        forall|i: int| from <= i < skip_spaces(s, from) ==> is_space(s[i]),
        skip_spaces(s, from) < s.len() ==> !is_space(s[skip_spaces(s, from)]),
    decreases s.len() - from,
{
    if from < s.len() && is_space(s[from]) {
        lemma_skip_spaces_props(s, from + 1);
    }
}

pub fn skip_spaces_from(s: &str, from: usize) -> (r: usize)
    requires
        from <= s@.len(),
    ensures
        r == skip_spaces(s@, from as int),
        from <= r <= s@.len(),
{
    let n = s.unicode_len();
    let mut i: usize = from;
    while i < n
        invariant
            n == s@.len(),
            from <= i <= n,
            skip_spaces(s@, from as int) == skip_spaces(s@, i as int),
        decreases n - i,
    {
        if !is_space_char(s.get_char(i)) {
            return i;
        }
        i = i + 1;
    }
    i
}

/// Whether `s` begins with `p`.
pub open spec fn starts_with(s: Seq<char>, p: Seq<char>) -> bool {
    p.len() <= s.len() && s.subrange(0, p.len() as int) == p
}

pub fn str_starts_with(s: &str, p: &str) -> (r: bool)
    ensures
        r == starts_with(s@, p@),
{
    let sn = s.unicode_len();
    let pn = p.unicode_len();
    if pn > sn {
        assert(!starts_with(s@, p@));
        return false;
    }
    let mut i: usize = 0;
    while i < pn
        invariant
            sn == s@.len(),
            pn == p@.len(),
            pn <= sn,
            i <= pn,
            forall|j: int| 0 <= j < i ==> s@[j] == p@[j],
        decreases pn - i,
    {
        if s.get_char(i) != p.get_char(i) {
            assert(s@.subrange(0, pn as int)[i as int] != p@[i as int]);
            return false;
        }
        i = i + 1;
    }
    assert(s@.subrange(0, pn as int) =~= p@);
    true
}

/// Whether `s` ends with `p`.
pub open spec fn ends_with(s: Seq<char>, p: Seq<char>) -> bool {
    p.len() <= s.len() && s.subrange(s.len() - p.len(), s.len() as int) == p
}

/// `s` with every trailing occurrence of the character `c` removed.
pub open spec fn trim_end_char(s: Seq<char>, c: char) -> Seq<char>
    decreases s.len(),
{
    if s.len() > 0 && s[s.len() - 1] == c {
        trim_end_char(s.drop_last(), c)
    } else {
        s
    }
}

/// `s` with every trailing occurrence of the text `p` removed.
pub open spec fn trim_end_text(s: Seq<char>, p: Seq<char>) -> Seq<char>
    decreases s.len(),
{
    if p.len() > 0 && ends_with(s, p) {
        trim_end_text(s.subrange(0, s.len() - p.len()), p)
    } else {
        s
    }
}

/// Whether the text `p` occurs in `s` at position `at`.
pub fn text_at(s: &str, at: usize, p: &str) -> (r: bool)
    requires
        at <= s@.len(),
    ensures
        r == (at + p@.len() <= s@.len() && s@.subrange(at as int, at + p@.len()) == p@),
{
    let sn = s.unicode_len();
    let pn = p.unicode_len();
    if pn > sn - at {
        return false;
    }
    let mut i: usize = 0;
    while i < pn
        invariant
            sn == s@.len(),
            pn == p@.len(),
            at + pn <= sn,
            i <= pn,
            forall|j: int| 0 <= j < i ==> s@[at + j] == p@[j],
        decreases pn - i,
    {
        if s.get_char(at + i) != p.get_char(i) {
            assert(s@.subrange(at as int, at + pn)[i as int] != p@[i as int]);
            return false;
        }
        i = i + 1;
    }
    assert(s@.subrange(at as int, at + pn) =~= p@);
    true
}

/// The end of `s[..end]` once every trailing `c` is removed.
pub fn trim_char_end(s: &str, end: usize, c: char) -> (e: usize)
    requires
        end <= s@.len(),
    ensures
        e <= end,
        trim_end_char(s@.subrange(0, end as int), c) == s@.subrange(0, e as int),
{
    let mut e: usize = end;
    while e > 0
        invariant_except_break
            e <= end <= s@.len(),
            trim_end_char(s@.subrange(0, end as int), c) == trim_end_char(s@.subrange(0, e as int), c),
        ensures
            e <= end,
            trim_end_char(s@.subrange(0, end as int), c) == s@.subrange(0, e as int),
        decreases e,
    {
        if s.get_char(e - 1) != c {
            assert(trim_end_char(s@.subrange(0, e as int), c) == s@.subrange(0, e as int));
            break;
        }
        assert(s@.subrange(0, e as int).drop_last() =~= s@.subrange(0, e - 1));
        e = e - 1;
    }
    if e == 0 {
        assert(trim_end_char(s@.subrange(0, 0), c) =~= s@.subrange(0, 0));
    }
    e
}

/// The end of `s[..end]` once every trailing copy of `p` is removed.
pub fn trim_text_end(s: &str, end: usize, p: &str) -> (e: usize)
    requires
        end <= s@.len(),
        p@.len() > 0,
    ensures
        e <= end,
        trim_end_text(s@.subrange(0, end as int), p@) == s@.subrange(0, e as int),
{
    let pn = p.unicode_len();
    let mut e: usize = end;
    loop
        invariant_except_break
            e <= end <= s@.len(),
            pn == p@.len(),
            pn > 0,
            trim_end_text(s@.subrange(0, end as int), p@) == trim_end_text(s@.subrange(0, e as int), p@),
        ensures
            e <= end,
            trim_end_text(s@.subrange(0, end as int), p@) == s@.subrange(0, e as int),
        decreases e,
    {
        if e < pn {
            assert(!ends_with(s@.subrange(0, e as int), p@));
            break;
        }
        if !text_at(s, e - pn, p) {
            assert(s@.subrange(0, e as int).subrange(e - pn, e as int) =~= s@.subrange(
                e - pn,
                e as int,
            ));
            assert(!ends_with(s@.subrange(0, e as int), p@));
            break;
        }
        assert(s@.subrange(0, e as int).subrange(e - pn, e as int) =~= s@.subrange(
            e - pn,
            e as int,
        ));
        assert(ends_with(s@.subrange(0, e as int), p@));
        assert(s@.subrange(0, e as int).subrange(0, e - pn) =~= s@.subrange(0, e - pn));
        e = e - pn;
    }
    e
}

/// The decimal digit characters of `n`, most significant first.
pub open spec fn dec_str(n: nat) -> Seq<char>
    decreases n,
{
    if n < 10 {
        seq![digit_char(n)]
    } else {
        dec_str(n / 10) + seq![digit_char(n % 10)]
    }
}

/// The character for one decimal digit.
pub open spec fn digit_char(d: nat) -> char {
    if d == 0 {
        '0'
    } else if d == 1 {
        '1'
    } else if d == 2 {
        '2'
    } else if d == 3 {
        '3'
    } else if d == 4 {
        '4'
    } else if d == 5 {
        '5'
    } else if d == 6 {
        '6'
    } else if d == 7 {
        '7'
    } else if d == 8 {
        '8'
    } else {
        '9'
    }
}

fn digit_literal(d: u64) -> (r: &'static str)
    requires
        d < 10,
    ensures
        r@ =~= seq![digit_char(d as nat)],
{
    proof {
        reveal_strlit("0");
        reveal_strlit("1");
        reveal_strlit("2");
        reveal_strlit("3");
        reveal_strlit("4");
        reveal_strlit("5");
        reveal_strlit("6");
        reveal_strlit("7");
        reveal_strlit("8");
        reveal_strlit("9");
    }
    match d {
        0 => "0",
        1 => "1",
        2 => "2",
        3 => "3",
        4 => "4",
        5 => "5",
        6 => "6",
        7 => "7",
        8 => "8",
        _ => "9",
    }
}

/// Renders `n` in decimal.
pub fn u64_to_string(n: u64) -> (s: String)
    ensures
        s@ == dec_str(n as nat),
    decreases n,
{
    let d = n % 10;
    let ds = digit_literal(d);
    if n < 10 {
        let s = ds.to_owned();
        assert(s@ =~= dec_str(n as nat));
        s
    } else {
        let mut s = u64_to_string(n / 10);
        s.append(ds);
        assert(s@ =~= dec_str(n as nat));
        s
    }
}

} // verus!
