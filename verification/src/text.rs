//! Character-level text utilities shared by every classifier and renderer.
//!
//! Text is modelled as `Seq<char>`, the view that vstd gives `str` and `String`.
use vstd::prelude::*;

verus! {

// ---------------------------------------------------------------------------
// Character classes
// ---------------------------------------------------------------------------

/// ASCII whitespace as `u8::is_ascii_whitespace` defines it (no vertical tab).
pub open spec fn is_ascii_ws(c: char) -> bool {
    c == ' ' || c == '\t' || c == '\n' || c == '\x0C' || c == '\r'
}

/// Unicode `White_Space`, the set that `char::is_whitespace` and `str::trim` use.
pub open spec fn is_ws(c: char) -> bool {
    ||| ('\t' <= c && c <= '\r')
    ||| c == ' '
    ||| c == '\u{85}'
    ||| c == '\u{A0}'
    ||| c == '\u{1680}'
    ||| ('\u{2000}' <= c && c <= '\u{200A}')
    ||| c == '\u{2028}'
    ||| c == '\u{2029}'
    ||| c == '\u{202F}'
    ||| c == '\u{205F}'
    ||| c == '\u{3000}'
}

pub open spec fn is_ascii_digit(c: char) -> bool {
    '0' <= c && c <= '9'
}

pub open spec fn is_ascii_alpha(c: char) -> bool {
    ('a' <= c && c <= 'z') || ('A' <= c && c <= 'Z')
}

pub open spec fn is_ascii_alnum(c: char) -> bool {
    is_ascii_digit(c) || is_ascii_alpha(c)
}

pub fn ascii_ws(c: char) -> (r: bool)
    ensures
        r == is_ascii_ws(c),
{
    c == ' ' || c == '\t' || c == '\n' || c == '\x0C' || c == '\r'
}

pub fn unicode_ws(c: char) -> (r: bool)
    ensures
        r == is_ws(c),
{
    ('\t' <= c && c <= '\r') || c == ' ' || c == '\u{85}' || c == '\u{A0}' || c == '\u{1680}'
        || ('\u{2000}' <= c && c <= '\u{200A}') || c == '\u{2028}' || c == '\u{2029}' || c
        == '\u{202F}' || c == '\u{205F}' || c == '\u{3000}'
}

pub fn ascii_digit(c: char) -> (r: bool)
    ensures
        r == is_ascii_digit(c),
{
    '0' <= c && c <= '9'
}

pub fn ascii_alnum(c: char) -> (r: bool)
    ensures
        r == is_ascii_alnum(c),
{
    ('0' <= c && c <= '9') || ('a' <= c && c <= 'z') || ('A' <= c && c <= 'Z')
}

// ---------------------------------------------------------------------------
// Conversions between `str` / `String` and character vectors
// ---------------------------------------------------------------------------

/// The characters of `s`, in order.
pub fn chars_of(s: &str) -> (v: Vec<char>)
    ensures
        v@ == s@,
{
    let mut v: Vec<char> = Vec::new();
    for c in it: s.chars()
        invariant
            v@ == it.seq().take(it.index() as int),
            it.seq() == s@,
    {
        v.push(c);
    }
    v
}

/// Appends the characters of `s` to `out`.
pub fn push_str(out: &mut Vec<char>, s: &str)
    ensures
        final(out)@ == old(out)@ + s@,
{
    let ghost start = out@;
    for c in it: s.chars()
        invariant
            out@ == start + it.seq().take(it.index() as int),
            it.seq() == s@,
    {
        out.push(c);
    }
    assert(s@.take(s@.len() as int) =~= s@);
}

/// Appends the characters of `s` to `out`.
pub fn push_chars(out: &mut Vec<char>, s: &[char])
    ensures
        final(out)@ == old(out)@ + s@,
{
    let ghost start = out@;
    let mut i: usize = 0;
    while i < s.len()
        invariant
            i <= s.len(),
            out@ == start + s@.take(i as int),
        decreases s.len() - i,
    {
        out.push(s[i]);
        i += 1;
        assert(s@.take(i as int) =~= s@.take(i - 1) .push(s@[i - 1]));
    }
    assert(s@.take(s@.len() as int) =~= s@);
}

/// Appends `s[a..b]` to `out`.
pub fn push_range(out: &mut Vec<char>, s: &[char], a: usize, b: usize)
    requires
        a <= b <= s.len(),
    ensures
        final(out)@ == old(out)@ + s@.subrange(a as int, b as int),
{
    let ghost start = out@;
    let mut i: usize = a;
    while i < b
        invariant
            a <= i <= b <= s.len(),
            out@ == start + s@.subrange(a as int, i as int),
        decreases b - i,
    {
        out.push(s[i]);
        i += 1;
        assert(s@.subrange(a as int, i as int) =~= s@.subrange(a as int, i - 1).push(s@[i - 1]));
    }
}

/// Builds a `String` holding exactly the given characters.
///
/// Trusted: calls std's `FromIterator<&char> for String` (`Iterator::collect`), which
/// appends each character in iteration order.
#[verifier::external_body]
pub(crate) fn string_from_chars(cs: &[char]) -> (s: String)
    ensures
        s@ == cs@,
{
    cs.iter().collect()
}

/// A `String` holding the characters of `s`.
pub fn owned(s: &str) -> (r: String)
    ensures
        r@ == s@,
{
    s.to_owned()
}

/// Character-wise equality of two string slices.
pub fn str_eq(a: &str, b: &str) -> (r: bool)
    ensures
        r == (a@ == b@),
{
    let x = chars_of(a);
    let y = chars_of(b);
    chars_eq(x.as_slice(), y.as_slice())
}

pub fn chars_eq(a: &[char], b: &[char]) -> (r: bool)
    ensures
        r == (a@ == b@),
{
    if a.len() != b.len() {
        return false;
    }
    let mut i: usize = 0;
    while i < a.len()
        invariant
            a.len() == b.len(),
            i <= a.len(),
            forall|j: int| 0 <= j < i ==> a@[j] == b@[j],
        decreases a.len() - i,
    {
        if a[i] != b[i] {
            return false;
        }
        i += 1;
    }
    assert(a@ =~= b@);
    true
}

// ---------------------------------------------------------------------------
// Prefixes, suffixes, containment
// ---------------------------------------------------------------------------

/// `needle` occurs in `s` starting at index `i`.
pub open spec fn occurs_at(s: Seq<char>, i: int, needle: Seq<char>) -> bool {
    0 <= i && i + needle.len() <= s.len() && s.subrange(i, i + needle.len()) == needle
}

/// `s[i] == a` and `s[i + 1] == b`.
pub open spec fn pair_at(s: Seq<char>, i: int, a: char, b: char) -> bool {
    0 <= i && i + 1 < s.len() && s[i] == a && s[i + 1] == b
}

/// `s[i] == a`, `s[i + 1] == b` and `s[i + 2] == c`.
pub open spec fn triple_at(s: Seq<char>, i: int, a: char, b: char, c: char) -> bool {
    0 <= i && i + 2 < s.len() && s[i] == a && s[i + 1] == b && s[i + 2] == c
}

/// Four given characters start at `s[i]`.
pub open spec fn quad_at(s: Seq<char>, i: int, a: char, b: char, c: char, d: char) -> bool {
    0 <= i && i + 3 < s.len() && s[i] == a && s[i + 1] == b && s[i + 2] == c && s[i + 3] == d
}

pub fn quad_at_exec(s: &[char], i: usize, a: char, b: char, c: char, d: char) -> (r: bool)
    ensures
        r == quad_at(s@, i as int, a, b, c, d),
{
    i < s.len() && s.len() - i >= 4 && s[i] == a && s[i + 1] == b && s[i + 2] == c && s[i + 3]
        == d
}

pub fn pair_at_exec(s: &[char], i: usize, a: char, b: char) -> (r: bool)
    ensures
        r == pair_at(s@, i as int, a, b),
{
    i < s.len() && s.len() - i >= 2 && s[i] == a && s[i + 1] == b
}

pub fn triple_at_exec(s: &[char], i: usize, a: char, b: char, c: char) -> (r: bool)
    ensures
        r == triple_at(s@, i as int, a, b, c),
{
    i < s.len() && s.len() - i >= 3 && s[i] == a && s[i + 1] == b && s[i + 2] == c
}

pub open spec fn has_prefix(s: Seq<char>, p: Seq<char>) -> bool {
    occurs_at(s, 0, p)
}

pub open spec fn has_suffix(s: Seq<char>, p: Seq<char>) -> bool {
    p.len() <= s.len() && s.subrange(s.len() - p.len(), s.len() as int) == p
}

pub open spec fn contains_seq(s: Seq<char>, needle: Seq<char>) -> bool {
    exists|i: int| occurs_at(s, i, needle)
}

/// Whether `needle` occurs in `s` at index `i` (false when it would run past the end).
pub fn matches_at(s: &[char], i: usize, needle: &str) -> (r: bool)
    ensures
        r == occurs_at(s@, i as int, needle@),
{
    let n = chars_of(needle);
    matches_chars_at(s, i, n.as_slice())
}

pub fn matches_chars_at(s: &[char], i: usize, n: &[char]) -> (r: bool)
    ensures
        r == occurs_at(s@, i as int, n@),
{
    if i > s.len() || n.len() > s.len() - i {
        return false;
    }
    let mut j: usize = 0;
    while j < n.len()
        invariant
            i + n.len() <= s.len(),
            j <= n.len(),
            forall|k: int| 0 <= k < j ==> s@[i + k] == n@[k],
        decreases n.len() - j,
    {
        if s[i + j] != n[j] {
            assert(s@.subrange(i as int, i + n@.len())[j as int] != n@[j as int]);
            return false;
        }
        j += 1;
    }
    assert(s@.subrange(i as int, i + n@.len()) =~= n@);
    true
}

pub fn starts_with_str(s: &[char], p: &str) -> (r: bool)
    ensures
        r == has_prefix(s@, p@),
{
    matches_at(s, 0, p)
}

pub fn ends_with_str(s: &[char], p: &str) -> (r: bool)
    ensures
        r == has_suffix(s@, p@),
{
    let n = chars_of(p);
    if n.len() > s.len() {
        return false;
    }
    let r = matches_chars_at(s, s.len() - n.len(), n.as_slice());
    r
}

pub fn contains_str(s: &[char], p: &str) -> (r: bool)
    ensures
        r == contains_seq(s@, p@),
{
    let n = chars_of(p);
    if n.len() == 0 {
        assert(s@.subrange(0, 0) =~= p@);
        assert(occurs_at(s@, 0, p@));
        return true;
    }
    let mut i: usize = 0;
    while i < s.len()
        invariant
            i <= s.len(),
            n@ == p@,
            n@.len() > 0,
            forall|k: int| 0 <= k < i ==> !occurs_at(s@, k, p@),
        decreases s.len() - i,
    {
        if matches_chars_at(s, i, n.as_slice()) {
            return true;
        }
        i += 1;
    }
    false
}

// ---------------------------------------------------------------------------
// Trimming
// ---------------------------------------------------------------------------

pub open spec fn trim_start(s: Seq<char>) -> Seq<char>
    decreases s.len(),
{
    if s.len() > 0 && is_ws(s[0]) {
        trim_start(s.drop_first())
    } else {
        s
    }
}

pub open spec fn trim_end(s: Seq<char>) -> Seq<char>
    decreases s.len(),
{
    if s.len() > 0 && is_ws(s.last()) {
        trim_end(s.drop_last())
    } else {
        s
    }
}

/// `str::trim`: leading and trailing Unicode whitespace removed.
pub open spec fn trim(s: Seq<char>) -> Seq<char> {
    trim_end(trim_start(s))
}

pub open spec fn all_ws(s: Seq<char>) -> bool {
    forall|i: int| 0 <= i < s.len() ==> is_ws(#[trigger] s[i])
}

proof fn lemma_trim_start_skip(s: Seq<char>, i: int)
    requires
        0 <= i <= s.len(),
        forall|k: int| 0 <= k < i ==> is_ws(#[trigger] s[k]),
    ensures
        trim_start(s) == trim_start(s.subrange(i, s.len() as int)),
    decreases i,
{
    if i > 0 {
        assert(is_ws(s[0]));
        let t = s.drop_first();
        assert forall|k: int| 0 <= k < i - 1 implies is_ws(#[trigger] t[k]) by {
            assert(t[k] == s[k + 1]);
        }
        lemma_trim_start_skip(t, i - 1);
        assert(t.subrange(i - 1, t.len() as int) =~= s.subrange(i, s.len() as int));
    } else {
        assert(s.subrange(0, s.len() as int) =~= s);
    }
}

proof fn lemma_trim_end_skip(s: Seq<char>, j: int)
    requires
        0 <= j <= s.len(),
        forall|k: int| j <= k < s.len() ==> is_ws(#[trigger] s[k]),
    ensures
        trim_end(s) == trim_end(s.subrange(0, j)),
    decreases s.len() - j,
{
    if j < s.len() {
        assert(is_ws(s.last()));
        let t = s.drop_last();
        assert forall|k: int| j <= k < t.len() implies is_ws(#[trigger] t[k]) by {
            assert(t[k] == s[k]);
        }
        lemma_trim_end_skip(t, j);
        assert(t.subrange(0, j) =~= s.subrange(0, j));
    } else {
        assert(s.subrange(0, j) =~= s);
    }
}

/// `trim_start` of a sequence that starts with a non-whitespace character is itself;
/// of an all-whitespace sequence it is empty.
pub proof fn lemma_trim_start_all_ws(s: Seq<char>)
    requires
        all_ws(s),
    ensures
        trim_start(s).len() == 0,
{
    lemma_trim_start_skip(s, s.len() as int);
}

/// Bounds `[start, end)` of `trim(s)` inside `s`.
pub fn trim_bounds(s: &[char]) -> (r: (usize, usize))
    ensures
        r.0 <= r.1 <= s.len(),
        s@.subrange(r.0 as int, r.1 as int) == trim(s@),
        all_ws(s@.subrange(0, r.0 as int)),
        (r.0 == r.1) <==> all_ws(s@),
{
    let mut start: usize = 0;
    while start < s.len() && unicode_ws(s[start])
        invariant
            start <= s.len(),
            forall|k: int| 0 <= k < start ==> is_ws(#[trigger] s@[k]),
        decreases s.len() - start,
    {
        start += 1;
    }
    proof {
        lemma_trim_start_skip(s@, start as int);
    }
    let ghost rest = s@.subrange(start as int, s@.len() as int);
    assert(start < s.len() ==> rest.len() > 0 && !is_ws(rest[0]));
    assert(trim_start(s@) == rest);
    let mut end: usize = s.len();
    while end > start && unicode_ws(s[end - 1])
        invariant
            start <= end <= s.len(),
            forall|k: int| end <= k < s.len() ==> is_ws(#[trigger] s@[k]),
        decreases end - start,
    {
        end -= 1;
    }
    proof {
        assert forall|k: int| end - start <= k < rest.len() implies is_ws(#[trigger] rest[k]) by {
            assert(rest[k] == s@[start + k]);
        }
        lemma_trim_end_skip(rest, end - start);
        assert(rest.subrange(0, end - start) =~= s@.subrange(start as int, end as int));
        let t = s@.subrange(start as int, end as int);
        assert(t.len() > 0 ==> !is_ws(t.last()));
        assert(trim_end(t) == t);
        assert(s@.subrange(0, start as int).len() == start);
        assert forall|k: int| 0 <= k < start implies is_ws(#[trigger] s@.subrange(0, start as int)[k]) by {
            assert(s@.subrange(0, start as int)[k] == s@[k]);
        }
        if start == end {
            assert forall|k: int| 0 <= k < s@.len() implies is_ws(#[trigger] s@[k]) by {
                if k >= start {
                    assert(k >= end);
                }
            }
        } else {
            assert(!is_ws(s@[start as int]));
        }
    }
    (start, end)
}

/// End of `trim_end(s[from..])` inside `s`.
pub fn trim_end_from(s: &[char], from: usize) -> (e: usize)
    requires
        from <= s.len(),
    ensures
        from <= e <= s.len(),
        s@.subrange(from as int, e as int) == trim_end(s@.subrange(from as int, s@.len() as int)),
{
    let mut end: usize = s.len();
    while end > from && unicode_ws(s[end - 1])
        invariant
            from <= end <= s.len(),
            forall|k: int| end <= k < s.len() ==> is_ws(#[trigger] s@[k]),
        decreases end - from,
    {
        end -= 1;
    }
    proof {
        let rest = s@.subrange(from as int, s@.len() as int);
        assert forall|k: int| end - from <= k < rest.len() implies is_ws(#[trigger] rest[k]) by {
            assert(rest[k] == s@[from + k]);
        }
        lemma_trim_end_skip(rest, end - from);
        let t = s@.subrange(from as int, end as int);
        assert(rest.subrange(0, end - from) =~= t);
        assert(t.len() > 0 ==> !is_ws(t.last()));
        assert(trim_end(t) == t);
    }
    end
}

/// `str::trim` of a character slice, as a new `String`.
pub fn trimmed_string(s: &[char]) -> (r: String)
    ensures
        r@ == trim(s@),
{
    let (a, b) = trim_bounds(s);
    let mut out: Vec<char> = Vec::new();
    let mut i = a;
    while i < b
        invariant
            a <= i <= b <= s.len(),
            out@ == s@.subrange(a as int, i as int),
        decreases b - i,
    {
        out.push(s[i]);
        i += 1;
        assert(out@ =~= s@.subrange(a as int, i as int));
    }
    string_from_chars(out.as_slice())
}

/// Whether the line is empty or all whitespace (`line.trim().is_empty()`).
pub fn is_blank(s: &[char]) -> (r: bool)
    ensures
        r == all_ws(s@),
        r == (trim(s@).len() == 0),
{
    let (a, b) = trim_bounds(s);
    a == b
}

// ---------------------------------------------------------------------------
// Lines, as `str::lines` splits them
// ---------------------------------------------------------------------------

/// A line without its `\n` loses one trailing `\r`.
pub open spec fn strip_cr(l: Seq<char>) -> Seq<char> {
    if l.len() > 0 && l.last() == '\r' {
        l.drop_last()
    } else {
        l
    }
}

/// The completed lines of `s[0..i]` and the start of the line still open at `i`.
pub open spec fn scan_lines(s: Seq<char>, i: int) -> (Seq<Seq<char>>, int)
    decreases i,
{
    if i <= 0 {
        (Seq::empty(), 0)
    } else {
        let (ls, start) = scan_lines(s, i - 1);
        if s[i - 1] == '\n' {
            (ls.push(strip_cr(s.subrange(start, i - 1))), i)
        } else {
            (ls, start)
        }
    }
}

/// `str::lines`: split at `\n`, strip a `\r` before it; a final line without
/// `\n` is kept as it is, and a final `\n` starts no empty line.
pub open spec fn split_lines(s: Seq<char>) -> Seq<Seq<char>> {
    let (ls, start) = scan_lines(s, s.len() as int);
    if start < s.len() {
        ls.push(s.subrange(start, s.len() as int))
    } else {
        ls
    }
}

pub open spec fn total_len(ls: Seq<Seq<char>>) -> int
    decreases ls.len(),
{
    if ls.len() == 0 {
        0
    } else {
        total_len(ls.drop_last()) + ls.last().len()
    }
}

pub proof fn lemma_total_len_push(ls: Seq<Seq<char>>, l: Seq<char>)
    ensures
        total_len(ls.push(l)) == total_len(ls) + l.len(),
{
    assert(ls.push(l).drop_last() =~= ls);
}

pub proof fn lemma_total_len_take(ls: Seq<Seq<char>>, i: int)
    requires
        0 <= i < ls.len(),
    ensures
        total_len(ls.take(i + 1)) == total_len(ls.take(i)) + ls[i].len(),
{
    assert(ls.take(i + 1) =~= ls.take(i).push(ls[i]));
    lemma_total_len_push(ls.take(i), ls[i]);
}

pub proof fn lemma_total_len_nonneg(ls: Seq<Seq<char>>)
    ensures
        total_len(ls) >= 0,
    decreases ls.len(),
{
    if ls.len() > 0 {
        lemma_total_len_nonneg(ls.drop_last());
    }
}

pub proof fn lemma_total_len_concat(a: Seq<Seq<char>>, b: Seq<Seq<char>>)
    ensures
        total_len(a + b) == total_len(a) + total_len(b),
    decreases b.len(),
{
    if b.len() == 0 {
        assert(a + b =~= a);
    } else {
        assert((a + b).drop_last() =~= a + b.drop_last());
        lemma_total_len_concat(a, b.drop_last());
    }
}

/// A line and everything before it fit inside the whole.
pub proof fn lemma_total_len_prefix(ls: Seq<Seq<char>>, i: int)
    requires
        0 <= i < ls.len(),
    ensures
        total_len(ls.take(i)) + ls[i].len() <= total_len(ls),
{
    lemma_total_len_take(ls, i);
    assert(ls =~= ls.take(i + 1) + ls.skip(i + 1));
    lemma_total_len_concat(ls.take(i + 1), ls.skip(i + 1));
    lemma_total_len_nonneg(ls.skip(i + 1));
}

proof fn lemma_scan_lines_bound(s: Seq<char>, i: int)
    requires
        0 <= i <= s.len(),
    ensures
        0 <= scan_lines(s, i).1 <= i,
        total_len(scan_lines(s, i).0) <= scan_lines(s, i).1,
        scan_lines(s, i).0.len() <= scan_lines(s, i).1,
    decreases i,
{
    if i > 0 {
        lemma_scan_lines_bound(s, i - 1);
        let (ls, start) = scan_lines(s, i - 1);
        if s[i - 1] == '\n' {
            lemma_total_len_push(ls, strip_cr(s.subrange(start, i - 1)));
        }
    }
}

/// All lines together are no longer than the text.
pub proof fn lemma_split_lines_bound(s: Seq<char>)
    ensures
        total_len(split_lines(s)) <= s.len(),
        split_lines(s).len() <= s.len(),
{
    lemma_scan_lines_bound(s, s.len() as int);
    let (ls, start) = scan_lines(s, s.len() as int);
    if start < s.len() {
        lemma_total_len_push(ls, s.subrange(start, s.len() as int));
    }
}

fn strip_cr_exec(l: &mut Vec<char>)
    ensures
        final(l)@ == strip_cr(old(l)@),
{
    if l.len() > 0 && l[l.len() - 1] == '\r' {
        l.pop();
    }
}

/// `str::lines` on a character slice.
pub fn split_lines_exec(s: &[char]) -> (r: Vec<Vec<char>>)
    ensures
        r@.len() == split_lines(s@).len(),
        forall|i: int| 0 <= i < r@.len() ==> (#[trigger] r@[i])@ == split_lines(s@)[i],
{
    let mut lines: Vec<Vec<char>> = Vec::new();
    let mut current: Vec<char> = Vec::new();
    let mut start: usize = 0;
    let mut i: usize = 0;
    while i < s.len()
        invariant
            i <= s.len(),
            start <= i,
            scan_lines(s@, i as int).1 == start,
            lines@.len() == scan_lines(s@, i as int).0.len(),
            forall|k: int| 0 <= k < lines@.len() ==> (#[trigger] lines@[k])@ == scan_lines(s@, i as int).0[k],
            current@ == s@.subrange(start as int, i as int),
        decreases s.len() - i,
    {
        let c = s[i];
        let ghost prev = scan_lines(s@, i as int);
        i += 1;
        if c == '\n' {
            let mut line = current;
            strip_cr_exec(&mut line);
            lines.push(line);
            current = Vec::new();
            start = i;
            assert(current@ =~= s@.subrange(start as int, i as int));
            assert forall|k: int| 0 <= k < lines@.len() implies (#[trigger] lines@[k])@ == scan_lines(s@, i as int).0[k] by {
                if k < lines@.len() - 1 {
                } else {
                }
            }
        } else {
            current.push(c);
            assert(current@ =~= s@.subrange(start as int, i as int));
        }
    }
    if start < s.len() {
        lines.push(current);
    }
    lines
}

// ---------------------------------------------------------------------------
// Decimal numbers
// ---------------------------------------------------------------------------

pub open spec fn digit_char(d: nat) -> char {
    if d == 0 {
        '0'
    } else if d == 1 {
        '1'
    } else if d == 2 {
        '2'
    } else if d == 3 {
        '3'
    } else if d == 4 {
        '4'
    } else if d == 5 {
        '5'
    } else if d == 6 {
        '6'
    } else if d == 7 {
        '7'
    } else if d == 8 {
        '8'
    } else {
        '9'
    }
}

/// The decimal digits of `n`, as `u64::to_string` writes them.
pub open spec fn decimal(n: nat) -> Seq<char>
    decreases n,
{
    if n < 10 {
        seq![digit_char(n)]
    } else {
        decimal(n / 10).push(digit_char(n % 10))
    }
}

fn digit_exec(d: u64) -> (c: char)
    requires
        d < 10,
    ensures
        c == digit_char(d as nat),
{
    if d == 0 {
        '0'
    } else if d == 1 {
        '1'
    } else if d == 2 {
        '2'
    } else if d == 3 {
        '3'
    } else if d == 4 {
        '4'
    } else if d == 5 {
        '5'
    } else if d == 6 {
        '6'
    } else if d == 7 {
        '7'
    } else if d == 8 {
        '8'
    } else {
        '9'
    }
}

/// Appends the decimal digits of `n`.
pub fn push_decimal(out: &mut Vec<char>, n: u64)
    ensures
        final(out)@ == old(out)@ + decimal(n as nat),
    decreases n,
{
    if n < 10 {
        out.push(digit_exec(n));
    } else {
        push_decimal(out, n / 10);
        out.push(digit_exec(n % 10));
    }
}

/// `n.to_string()`.
pub fn decimal_string(n: u64) -> (s: String)
    ensures
        s@ == decimal(n as nat),
{
    let mut v: Vec<char> = Vec::new();
    push_decimal(&mut v, n);
    assert(v@ =~= decimal(n as nat));
    string_from_chars(v.as_slice())
}

/// `a + b` as a new `String`.
pub fn concat2(a: &str, b: &str) -> (s: String)
    ensures
        s@ == a@ + b@,
{
    let mut v: Vec<char> = Vec::new();
    push_str(&mut v, a);
    push_str(&mut v, b);
    assert(v@ =~= a@ + b@);
    string_from_chars(v.as_slice())
}

/// `a + b + c` as a new `String`.
pub fn concat3(a: &str, b: &str, c: &str) -> (s: String)
    ensures
        s@ == a@ + b@ + c@,
{
    let mut v: Vec<char> = Vec::new();
    push_str(&mut v, a);
    push_str(&mut v, b);
    push_str(&mut v, c);
    assert(v@ =~= a@ + b@ + c@);
    string_from_chars(v.as_slice())
}

// ---------------------------------------------------------------------------
// Lexicographic order (`str` `Ord`: by code point, which is UTF-8 byte order)
// ---------------------------------------------------------------------------

/// `a < b` in `str` order.
pub open spec fn seq_lt(a: Seq<char>, b: Seq<char>) -> bool
    decreases a.len(),
{
    if a.len() == 0 {
        b.len() > 0
    } else if b.len() == 0 {
        false
    } else if a[0] != b[0] {
        a[0] < b[0]
    } else {
        seq_lt(a.drop_first(), b.drop_first())
    }
}

pub fn chars_lt(a: &[char], b: &[char]) -> (r: bool)
    ensures
        r == seq_lt(a@, b@),
{
    let mut i: usize = 0;
    assert(a@.skip(0) =~= a@);
    assert(b@.skip(0) =~= b@);
    while i < a.len() && i < b.len() && a[i] == b[i]
        invariant
            i <= a.len(),
            i <= b.len(),
            seq_lt(a@, b@) == seq_lt(a@.skip(i as int), b@.skip(i as int)),
        decreases a.len() - i,
    {
        proof {
            let x = a@.skip(i as int);
            let y = b@.skip(i as int);
            assert(x.drop_first() =~= a@.skip(i + 1));
            assert(y.drop_first() =~= b@.skip(i + 1));
        }
        i += 1;
    }
    if i == a.len() {
        i < b.len()
    } else if i == b.len() {
        false
    } else {
        a[i] < b[i]
    }
}

pub fn str_lt(a: &str, b: &str) -> (r: bool)
    ensures
        r == seq_lt(a@, b@),
{
    let x = chars_of(a);
    let y = chars_of(b);
    chars_lt(x.as_slice(), y.as_slice())
}

/// `str` order is a strict total order.
pub proof fn lemma_seq_lt_irreflexive(a: Seq<char>)
    ensures
        !seq_lt(a, a),
    decreases a.len(),
{
    if a.len() > 0 {
        lemma_seq_lt_irreflexive(a.drop_first());
    }
}

pub proof fn lemma_seq_lt_asymmetric(a: Seq<char>, b: Seq<char>)
    ensures
        seq_lt(a, b) ==> !seq_lt(b, a),
    decreases a.len(),
{
    if a.len() > 0 && b.len() > 0 && a[0] == b[0] {
        lemma_seq_lt_asymmetric(a.drop_first(), b.drop_first());
    }
}

pub proof fn lemma_seq_lt_transitive(a: Seq<char>, b: Seq<char>, c: Seq<char>)
    ensures
        seq_lt(a, b) && seq_lt(b, c) ==> seq_lt(a, c),
    decreases a.len(),
{
    if a.len() > 0 && b.len() > 0 && c.len() > 0 && a[0] == b[0] && b[0] == c[0] {
        lemma_seq_lt_transitive(a.drop_first(), b.drop_first(), c.drop_first());
    }
}

pub proof fn lemma_seq_lt_total(a: Seq<char>, b: Seq<char>)
    ensures
        a != b ==> seq_lt(a, b) || seq_lt(b, a),
    decreases a.len(),
{
    if a.len() > 0 && b.len() > 0 && a[0] == b[0] {
        lemma_seq_lt_total(a.drop_first(), b.drop_first());
        if a.drop_first() == b.drop_first() {
            assert(a =~= seq![a[0]] + a.drop_first());
            assert(b =~= seq![b[0]] + b.drop_first());
        }
    } else if a.len() == 0 && b.len() == 0 {
        assert(a =~= b);
    }
}

} // verus!
