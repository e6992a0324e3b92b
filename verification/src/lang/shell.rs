//! Shell scripts: `#` comments (at the start of a line or after a blank or `;`),
//! a `#!` first line that counts as code, quoted strings, and here-documents whose
//! bodies count as code up to their terminator line.
use vstd::prelude::*;

use crate::lines::{
    analysis_of, assemble, kind_from_flags, kind_of_flags, lemma_lines_match, normalize_mixed,
    seqs_of, spec_normalize_mixed, strings_of, BackendFileAnalysis, LineKind,
};
use crate::text::{
    all_ws, ascii_ws, chars_of, is_ascii_ws, is_blank, is_ws, owned, pair_at, pair_at_exec,
    split_lines, split_lines_exec, trim_end, trim_end_from,
};
use crate::types::{ClassificationOptions, FileCategory, Language};

verus! {

/// An open here-document: the word that closes it, and whether `<<-` lets the
/// closing line start with tabs.
pub struct Heredoc {
    pub delimiter: Seq<char>,
    pub strip_tabs: bool,
}

/// An open here-document, as the scanner holds it.
#[derive(Debug, Clone)]
pub struct HereDocState {
    pub delimiter: Vec<char>,
    pub strip_tabs: bool,
}

pub open spec fn heredoc_view(h: Option<HereDocState>) -> Option<Heredoc> {
    match h {
        Some(s) => Some(Heredoc { delimiter: s.delimiter@, strip_tabs: s.strip_tabs }),
        None => None,
    }
}

/// First index at or after `i` that is not a space or tab.
pub open spec fn skip_blanks(line: Seq<char>, i: int) -> int
    decreases line.len() - i,
{
    if 0 <= i < line.len() && (line[i] == ' ' || line[i] == '\t') {
        skip_blanks(line, i + 1)
    } else {
        i
    }
}

/// First index at or after `i` holding `c`, or the length when there is none.
pub open spec fn find_char(line: Seq<char>, i: int, c: char) -> int
    decreases line.len() - i,
{
    if 0 <= i < line.len() && line[i] != c {
        find_char(line, i + 1, c)
    } else {
        i
    }
}

pub open spec fn ends_word(c: char) -> bool {
    is_ascii_ws(c) || c == ';' || c == '|' || c == '&' || c == '#'
}

/// End of an unquoted here-document word starting at `i`.
pub open spec fn word_end(line: Seq<char>, i: int) -> int
    decreases line.len() - i,
{
    if 0 <= i < line.len() && !ends_word(line[i]) {
        word_end(line, i + 1)
    } else {
        i
    }
}

/// A here-document operator at `i`: `<<` or `<<-`, optional blanks, then a quoted
/// or bare word. Gives the document and the index just past the word.
pub open spec fn heredoc_start(line: Seq<char>, i: int) -> Option<(Heredoc, int)> {
    if !pair_at(line, i, '<', '<') {
        None
    } else {
        let strip = i + 2 < line.len() && line[i + 2] == '-';
        let c = if strip {
            i + 3
        } else {
            i + 2
        };
        let w = skip_blanks(line, c);
        if w >= line.len() {
            None
        } else if line[w] == '\'' || line[w] == '"' {
            let q = find_char(line, w + 1, line[w]);
            if q >= line.len() {
                None
            } else {
                Some((Heredoc { delimiter: line.subrange(w + 1, q), strip_tabs: strip }, q + 1))
            }
        } else {
            let e = word_end(line, w);
            if e == w {
                None
            } else {
                Some((Heredoc { delimiter: line.subrange(w, e), strip_tabs: strip }, e))
            }
        }
    }
}

/// First index at or after `i` that is not a tab.
pub open spec fn skip_tabs(line: Seq<char>, i: int) -> int
    decreases line.len() - i,
{
    if 0 <= i < line.len() && line[i] == '\t' {
        skip_tabs(line, i + 1)
    } else {
        i
    }
}

/// The line closes the here-document: without trailing whitespace (and, for
/// `<<-`, without leading tabs) it is the delimiter.
pub open spec fn is_terminator(line: Seq<char>, h: Heredoc) -> bool {
    let start = if h.strip_tabs {
        skip_tabs(line, 0)
    } else {
        0
    };
    trim_end(line.subrange(start, line.len() as int)) == h.delimiter
}

/// Scanner position inside one line.
pub struct SScan {
    pub i: int,
    pub in_single: bool,
    pub in_double: bool,
    pub escaped: bool,
    pub has_code: bool,
    pub has_comment: bool,
    pub next: Option<Heredoc>,
}

/// `#` starts a comment at the start of a line or after a space, tab or `;`.
pub open spec fn starts_comment(line: Seq<char>, i: int) -> bool {
    i == 0 || line[i - 1] == ' ' || line[i - 1] == '\t' || line[i - 1] == ';'
}

/// `#!` at the very start of a line.
pub open spec fn is_shebang(line: Seq<char>, i: int) -> bool {
    i == 0 && 1 < line.len() && line[1] == '!'
}

pub open spec fn s_step(line: Seq<char>, s: SScan) -> SScan {
    let i = s.i;
    let c = line[i];
    if s.in_single {
        SScan { i: i + 1, in_single: c != '\'', has_code: true, ..s }
    } else if s.in_double {
        if c == '\\' && !s.escaped {
            SScan { i: i + 1, escaped: true, has_code: true, ..s }
        } else if c == '"' && !s.escaped {
            SScan { i: i + 1, in_double: false, has_code: true, ..s }
        } else {
            SScan { i: i + 1, escaped: false, has_code: true, ..s }
        }
    } else if c == '<' {
        match heredoc_start(line, i) {
            Some((h, n)) => SScan { i: n, has_code: true, next: Some(h), ..s },
            None => SScan { i: i + 1, ..s },
        }
    } else if c == '#' && is_shebang(line, i) {
        SScan { i: line.len() as int, has_code: true, ..s }
    } else if c == '#' && starts_comment(line, i) {
        SScan { i: line.len() as int, has_comment: true, ..s }
    } else if c == '\'' {
        SScan { i: i + 1, in_single: true, has_code: true, ..s }
    } else if c == '"' {
        SScan { i: i + 1, in_double: true, escaped: false, has_code: true, ..s }
    } else if !is_ascii_ws(c) {
        SScan { i: i + 1, has_code: true, ..s }
    } else {
        SScan { i: i + 1, ..s }
    }
}

pub open spec fn s_run(line: Seq<char>, s: SScan) -> SScan
    decreases line.len() - s.i,
{
    if 0 <= s.i < line.len() {
        let n = s_step(line, s);
        if s.i < n.i <= line.len() {
            s_run(line, n)
        } else {
            n
        }
    } else {
        s
    }
}

/// The kind of one line and the here-document open after it.
pub open spec fn s_line(line: Seq<char>, h: Option<Heredoc>) -> (LineKind, Option<Heredoc>) {
    match h {
        Some(d) => {
            let k = if all_ws(line) {
                LineKind::Blank
            } else {
                LineKind::Code
            };
            (
                k,
                if is_terminator(line, d) {
                    None
                } else {
                    h
                },
            )
        },
        None => {
            if all_ws(line) {
                (LineKind::Blank, None)
            } else {
                let end = s_run(
                    line,
                    SScan {
                        i: 0,
                        in_single: false,
                        in_double: false,
                        escaped: false,
                        has_code: false,
                        has_comment: false,
                        next: None,
                    },
                );
                (kind_from_flags(end.has_code, end.has_comment, false), end.next)
            }
        },
    }
}

proof fn lemma_s_run_blanks(line: Seq<char>, s: SScan, k: int)
    requires
        0 <= s.i <= k <= line.len(),
        !s.in_single,
        !s.in_double,
        forall|j: int| s.i <= j < k ==> (#[trigger] line[j]) == ' ' || line[j] == '\t',
    ensures
        s_run(line, s) == s_run(line, SScan { i: k, ..s }),
    decreases k - s.i,
{
    if s.i < k {
        let n = s_step(line, s);
        assert(line[s.i] == ' ' || line[s.i] == '\t');
        assert(n == SScan { i: s.i + 1, ..s });
        lemma_s_run_blanks(line, n, k);
        assert(SScan { i: k, ..n } == SScan { i: k, ..s });
    } else {
        assert(SScan { i: k, ..s } == s);
    }
}

/// Outside a here-document, a line of spaces and tabs (at least one) followed by
/// `#` is a comment, whatever follows the `#`, and opens no here-document.
pub proof fn lemma_shell_indented_comment(blanks: Seq<char>, rest: Seq<char>)
    requires
        blanks.len() > 0,
        forall|j: int| 0 <= j < blanks.len() ==> (#[trigger] blanks[j]) == ' ' || blanks[j] == '\t',
    ensures
        s_line(blanks + seq!['#'] + rest, None) == (LineKind::Comment, None::<Heredoc>),
{
    let line = blanks + seq!['#'] + rest;
    let k = blanks.len() as int;
    assert(line[k] == '#');
    assert(!is_ws('#'));
    assert(!all_ws(line));
    let s0 = SScan {
        i: 0,
        in_single: false,
        in_double: false,
        escaped: false,
        has_code: false,
        has_comment: false,
        next: None,
    };
    assert forall|j: int| s0.i <= j < k implies (#[trigger] line[j]) == ' ' || line[j] == '\t' by {
        assert(line[j] == blanks[j]);
    }
    lemma_s_run_blanks(line, s0, k);
    let sk = SScan { i: k, ..s0 };
    assert(line[k - 1] == blanks[k - 1]);
    assert(starts_comment(line, k));
    assert(!is_shebang(line, k));
    let n = s_step(line, sk);
    assert(n == SScan { i: line.len() as int, has_comment: true, ..sk });
    assert(s_run(line, n) == n);
    assert(s_run(line, sk) == n);
}

pub open spec fn s_fold(lines: Seq<Seq<char>>, n: int) -> (Seq<LineKind>, Option<Heredoc>)
    decreases n,
{
    if n <= 0 {
        (Seq::empty(), None)
    } else {
        let (ks, h) = s_fold(lines, n - 1);
        let (k, h2) = s_line(lines[n - 1], h);
        (ks.push(k), h2)
    }
}

pub open spec fn s_raw_kinds(lines: Seq<Seq<char>>) -> Seq<LineKind> {
    s_fold(lines, lines.len() as int).0
}

pub open spec fn s_effective_kinds(lines: Seq<Seq<char>>, o: ClassificationOptions) -> Seq<
    LineKind,
> {
    s_raw_kinds(lines).map_values(|k: LineKind| spec_normalize_mixed(k, o))
}

pub open spec fn s_reason(raw: LineKind, eff: LineKind) -> Seq<char> {
    if raw == LineKind::Mixed && eff == LineKind::Comment {
        "line contains shell code and comment segments, but classification policy excludes mixed lines from code"@
    } else {
        match eff {
            LineKind::Blank => "line contains only whitespace"@,
            LineKind::Code => "line contains shell code or quoted content without a comment"@,
            LineKind::Mixed => "line contains shell code followed by a comment"@,
            _ => "line is a shell comment line"@,
        }
    }
}

pub open spec fn s_reasons(lines: Seq<Seq<char>>, o: ClassificationOptions) -> Seq<Seq<char>> {
    Seq::new(
        lines.len(),
        |i: int| s_reason(s_raw_kinds(lines)[i], s_effective_kinds(lines, o)[i]),
    )
}

fn skip_blanks_exec(line: &[char], i: usize) -> (r: usize)
    requires
        i <= line.len(),
    ensures
        r as int == skip_blanks(line@, i as int),
        i <= r <= line.len(),
{
    let mut k = i;
    while k < line.len() && (line[k] == ' ' || line[k] == '\t')
        invariant
            i <= k <= line.len(),
            skip_blanks(line@, k as int) == skip_blanks(line@, i as int),
        decreases line.len() - k,
    {
        k += 1;
    }
    k
}

fn find_char_exec(line: &[char], i: usize, c: char) -> (r: usize)
    requires
        i <= line.len(),
    ensures
        r as int == find_char(line@, i as int, c),
        i <= r <= line.len(),
{
    let mut k = i;
    while k < line.len() && line[k] != c
        invariant
            i <= k <= line.len(),
            find_char(line@, k as int, c) == find_char(line@, i as int, c),
        decreases line.len() - k,
    {
        k += 1;
    }
    k
}

fn word_end_exec(line: &[char], i: usize) -> (r: usize)
    requires
        i <= line.len(),
    ensures
        r as int == word_end(line@, i as int),
        i <= r <= line.len(),
{
    let mut k = i;
    while k < line.len() && !(ascii_ws(line[k]) || line[k] == ';' || line[k] == '|' || line[k]
        == '&' || line[k] == '#')
        invariant
            i <= k <= line.len(),
            word_end(line@, k as int) == word_end(line@, i as int),
        decreases line.len() - k,
    {
        k += 1;
    }
    k
}

fn slice_vec(line: &[char], a: usize, b: usize) -> (r: Vec<char>)
    requires
        a <= b <= line.len(),
    ensures
        r@ == line@.subrange(a as int, b as int),
{
    let mut out: Vec<char> = Vec::new();
    let mut k = a;
    while k < b
        invariant
            a <= k <= b <= line.len(),
            out@ == line@.subrange(a as int, k as int),
        decreases b - k,
    {
        out.push(line[k]);
        k += 1;
        assert(out@ =~= line@.subrange(a as int, k as int));
    }
    out
}

/// The here-document operator at `i`, if there is one, and the index after its word.
pub fn match_heredoc_start(line: &[char], i: usize) -> (r: Option<(HereDocState, usize)>)
    requires
        i < line.len(),
    ensures
        match heredoc_start(line@, i as int) {
            Some((h, n)) => r matches Some((s, m)) && s.delimiter@ == h.delimiter && s.strip_tabs
                == h.strip_tabs && m as int == n,
            None => r is None,
        },
        r matches Some((s, m)) ==> i < m <= line.len(),
{
    if !pair_at_exec(line, i, '<', '<') {
        return None;
    }
    let strip = i + 2 < line.len() && line[i + 2] == '-';
    let c = if strip {
        i + 3
    } else {
        i + 2
    };
    let w = skip_blanks_exec(line, c);
    if w >= line.len() {
        return None;
    }
    let first = line[w];
    if first == '\'' || first == '"' {
        let q = find_char_exec(line, w + 1, first);
        if q >= line.len() {
            return None;
        }
        let delimiter = slice_vec(line, w + 1, q);
        Some((HereDocState { delimiter, strip_tabs: strip }, q + 1))
    } else {
        let e = word_end_exec(line, w);
        if e == w {
            return None;
        }
        let delimiter = slice_vec(line, w, e);
        Some((HereDocState { delimiter, strip_tabs: strip }, e))
    }
}

/// Whether the line closes the here-document.
pub fn is_heredoc_terminator(line: &[char], state: &HereDocState) -> (r: bool)
    ensures
        r == is_terminator(line@, Heredoc { delimiter: state.delimiter@, strip_tabs: state.strip_tabs }),
{
    let mut start: usize = 0;
    if state.strip_tabs {
        while start < line.len() && line[start] == '\t'
            invariant
                start <= line.len(),
                skip_tabs(line@, start as int) == skip_tabs(line@, 0),
            decreases line.len() - start,
        {
            start += 1;
        }
    }
    assert(start == (if state.strip_tabs {
        skip_tabs(line@, 0)
    } else {
        0
    }));
    let end = trim_end_from(line, start);
    let d = &state.delimiter;
    if end - start != d.len() {
        return false;
    }
    let mut k: usize = 0;
    while k < d.len()
        invariant
            start <= end <= line.len(),
            end - start == d.len(),
            k <= d.len(),
            d@ == state.delimiter@,
            forall|m: int| 0 <= m < k ==> line@[start + m] == d@[m],
            line@.subrange(start as int, end as int) == trim_end(line@.subrange(start as int, line@.len() as int)),
            start == (if state.strip_tabs {
                skip_tabs(line@, 0)
            } else {
                0
            }),
        decreases d.len() - k,
    {
        if line[start + k] != d[k] {
            assert(line@.subrange(start as int, end as int)[k as int] != d@[k as int]);
            assert(line@.subrange(start as int, end as int) != d@);
            return false;
        }
        k += 1;
    }
    assert(line@.subrange(start as int, end as int) =~= d@);
    true
}

/// Classifies one line, updating the open here-document.
pub fn classify_line(line: &[char], heredoc: &mut Option<HereDocState>) -> (k: LineKind)
    ensures
        (k, heredoc_view(*final(heredoc))) == s_line(line@, heredoc_view(*old(heredoc))),
{
    let closes = match heredoc {
        Some(state) => Some(is_heredoc_terminator(line, state)),
        None => None,
    };
    if let Some(done) = closes {
        if done {
            *heredoc = None;
        }
        return if is_blank(line) {
            LineKind::Blank
        } else {
            LineKind::Code
        };
    }
    if is_blank(line) {
        return LineKind::Blank;
    }
    let mut index: usize = 0;
    let mut in_single = false;
    let mut in_double = false;
    let mut escaped = false;
    let mut has_code = false;
    let mut has_comment = false;
    let mut next: Option<HereDocState> = None;
    let ghost start = SScan {
        i: 0,
        in_single: false,
        in_double: false,
        escaped: false,
        has_code: false,
        has_comment: false,
        next: None,
    };
    while index < line.len()
        invariant
            index <= line.len(),
            s_run(
                line@,
                SScan {
                    i: index as int,
                    in_single,
                    in_double,
                    escaped,
                    has_code,
                    has_comment,
                    next: heredoc_view(next),
                },
            ) == s_run(line@, start),
        decreases line.len() - index,
    {
        let ghost cur = SScan {
            i: index as int,
            in_single,
            in_double,
            escaped,
            has_code,
            has_comment,
            next: heredoc_view(next),
        };
        let c = line[index];
        if in_single {
            has_code = true;
            if c == '\'' {
                in_single = false;
            }
            index += 1;
        } else if in_double {
            has_code = true;
            if c == '\\' && !escaped {
                escaped = true;
            } else if c == '"' && !escaped {
                in_double = false;
            } else {
                escaped = false;
            }
            index += 1;
        } else if c == '<' {
            match match_heredoc_start(line, index) {
                Some((state, n)) => {
                    has_code = true;
                    next = Some(state);
                    index = n;
                },
                None => {
                    index += 1;
                },
            }
        } else if c == '#' && index == 0 && 1 < line.len() && line[1] == '!' {
            has_code = true;
            index = line.len();
        } else if c == '#' && (index == 0 || line[index - 1] == ' ' || line[index - 1] == '\t'
            || line[index - 1] == ';') {
            has_comment = true;
            index = line.len();
        } else if c == '\'' {
            has_code = true;
            in_single = true;
            index += 1;
        } else if c == '"' {
            has_code = true;
            in_double = true;
            escaped = false;
            index += 1;
        } else {
            if !ascii_ws(c) {
                has_code = true;
            }
            index += 1;
        }
        proof {
            let n = SScan {
                i: index as int,
                in_single,
                in_double,
                escaped,
                has_code,
                has_comment,
                next: heredoc_view(next),
            };
            assert(s_step(line@, cur) == n);
        }
    }
    *heredoc = next;
    kind_of_flags(has_code, has_comment, false)
}

pub fn line_reason(raw: LineKind, eff: LineKind) -> (r: &'static str)
    ensures
        r@ == s_reason(raw, eff),
{
    if raw == LineKind::Mixed && eff == LineKind::Comment {
        "line contains shell code and comment segments, but classification policy excludes mixed lines from code"
    } else {
        match eff {
            LineKind::Blank => "line contains only whitespace",
            LineKind::Code => "line contains shell code or quoted content without a comment",
            LineKind::Mixed => "line contains shell code followed by a comment",
            _ => "line is a shell comment line",
        }
    }
}

/// Classifies the text of a shell script.
pub fn classify_file(
    path: &str,
    contents: &str,
    bytes: u64,
    category: FileCategory,
    options: &ClassificationOptions,
) -> (a: BackendFileAnalysis)
    requires
        split_lines(contents@).len() <= u32::MAX,
    ensures
        analysis_of(
            a,
            path@,
            Language::Shell,
            category,
            bytes,
            split_lines(contents@),
            s_effective_kinds(split_lines(contents@), *options),
            s_reasons(split_lines(contents@), *options),
        ),
        a.warnings@.len() == 0,
{
    let text = chars_of(contents);
    let lines = split_lines_exec(text.as_slice());
    let ghost ls = split_lines(contents@);
    proof {
        lemma_lines_match(lines@, contents@);
        lemma_s_fold_len(ls, ls.len() as int);
    }
    let mut kinds: Vec<LineKind> = Vec::new();
    let mut reasons: Vec<String> = Vec::new();
    let mut heredoc: Option<HereDocState> = None;
    let mut i: usize = 0;
    while i < lines.len()
        invariant
            i <= lines.len(),
            s_raw_kinds(ls).len() == ls.len(),
            seqs_of(lines@) == ls,
            s_fold(ls, i as int).1 == heredoc_view(heredoc),
            kinds@ == s_effective_kinds(ls, *options).take(i as int),
            strings_of(reasons@) == s_reasons(ls, *options).take(i as int),
        decreases lines.len() - i,
    {
        proof {
            assert(lines@[i as int]@ == ls[i as int]);
            assert(ls.len() == lines.len());
            assert(strings_of(reasons@).len() == reasons@.len());
        }
        let raw = classify_line(lines[i].as_slice(), &mut heredoc);
        let eff = normalize_mixed(raw, options);
        let reason = owned(line_reason(raw, eff));
        proof {
            assert(s_fold(ls, i + 1).0 == s_fold(ls, i as int).0.push(raw));
            lemma_s_fold_prefix(ls, i + 1);
            assert(s_raw_kinds(ls).take(i + 1)[i as int] == raw);
            assert(s_raw_kinds(ls)[i as int] == raw);
            assert(s_effective_kinds(ls, *options)[i as int] == eff);
            assert(s_reasons(ls, *options)[i as int] == reason@);
        }
        let ghost old_reasons = reasons@;
        kinds.push(eff);
        reasons.push(reason);
        proof {
            assert(strings_of(reasons@) =~= strings_of(old_reasons).push(reasons@[i as int]@));
            assert(kinds@ =~= s_effective_kinds(ls, *options).take(i + 1));
            assert(strings_of(reasons@) =~= s_reasons(ls, *options).take(i + 1));
        }
        i += 1;
    }
    proof {
        assert(kinds@ =~= s_effective_kinds(ls, *options));
        assert(strings_of(reasons@) =~= s_reasons(ls, *options));
    }
    assemble(path, Language::Shell, category, bytes, &lines, &kinds, &reasons, Vec::new())
}

proof fn lemma_s_fold_len(lines: Seq<Seq<char>>, n: int)
    requires
        0 <= n,
    ensures
        s_fold(lines, n).0.len() == n,
    decreases n,
{
    if n > 0 {
        lemma_s_fold_len(lines, n - 1);
    }
}

proof fn lemma_s_fold_prefix(lines: Seq<Seq<char>>, n: int)
    requires
        0 <= n <= lines.len(),
    ensures
        s_fold(lines, n).0 == s_raw_kinds(lines).take(n),
    decreases lines.len() - n,
{
    lemma_s_fold_len(lines, n);
    lemma_s_fold_len(lines, lines.len() as int);
    if n < lines.len() {
        lemma_s_fold_prefix(lines, n + 1);
        assert(s_fold(lines, n + 1).0.take(n) =~= s_fold(lines, n).0);
        assert(s_raw_kinds(lines).take(n + 1).take(n) =~= s_raw_kinds(lines).take(n));
    } else {
        assert(s_raw_kinds(lines).take(n) =~= s_raw_kinds(lines));
    }
}

} // verus!
