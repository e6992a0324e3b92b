//! Rust: `//` and nested `/* */` comments, `///`, `//!`, `/**` and `/*!` doc
//! comments, strings and raw strings (`r"..."`, `r#"..."#`).
use vstd::prelude::*;

use crate::lines::{
    analysis_of, assemble, kind_from_flags, kind_of_flags, lemma_lines_match,
    normalize_doc_mixed, seqs_of, spec_normalize_doc_mixed, strings_of, BackendFileAnalysis,
    LineKind,
};
use crate::text::{
    ascii_ws, chars_of, is_ascii_ws, lemma_split_lines_bound, lemma_total_len_prefix,
    lemma_total_len_take, owned, pair_at, pair_at_exec, quad_at, quad_at_exec, split_lines,
    split_lines_exec, total_len, triple_at, triple_at_exec,
};
use crate::types::{ClassificationOptions, FileCategory, Language};

verus! {

#[derive(Debug, Clone, Copy, PartialEq, Eq, Structural)]
pub enum RMode {
    Normal,
    Str { escaped: bool },
    Raw { hashes: usize },
    Block { depth: usize, doc: bool },
}

pub struct RScan {
    pub i: int,
    pub mode: RMode,
    pub has_code: bool,
    pub has_comment: bool,
    pub has_doc: bool,
}

pub open spec fn depth_of(m: RMode) -> int {
    match m {
        RMode::Block { depth, .. } => depth as int,
        _ => 0,
    }
}

/// Modes keep block depth at least one.
pub open spec fn mode_ok(m: RMode) -> bool {
    m matches RMode::Block { depth, .. } ==> depth >= 1
}

/// `///` (but not `////`) or `//!` at `i`.
pub open spec fn is_doc_line_comment(line: Seq<char>, i: int) -> bool {
    (triple_at(line, i, '/', '/', '/') && !quad_at(line, i, '/', '/', '/', '/')) || triple_at(
        line,
        i,
        '/',
        '/',
        '!',
    )
}

/// `/**` (but not `/***`) or `/*!` at `i`.
pub open spec fn is_doc_block_comment(line: Seq<char>, i: int) -> bool {
    (triple_at(line, i, '/', '*', '*') && !quad_at(line, i, '/', '*', '*', '*')) || triple_at(
        line,
        i,
        '/',
        '*',
        '!',
    )
}

/// Number of consecutive `#` starting at `j`.
pub open spec fn count_hashes(line: Seq<char>, j: int) -> nat
    decreases line.len() - j,
{
    if 0 <= j < line.len() && line[j] == '#' {
        1 + count_hashes(line, j + 1)
    } else {
        0
    }
}

/// `r`, some `#`, then `"` at `i` opens a raw string with that many hashes.
pub open spec fn raw_start(line: Seq<char>, i: int) -> Option<nat> {
    let h = count_hashes(line, i + 1);
    if 0 <= i < line.len() && line[i] == 'r' && i + 1 + h < line.len() && line[i + 1 + h] == '"' {
        Some(h)
    } else {
        None
    }
}

/// `"` followed by `hashes` times `#` at `i` closes a raw string.
pub open spec fn raw_end(line: Seq<char>, i: int, hashes: int) -> bool {
    &&& 0 <= i < line.len()
    &&& line[i] == '"'
    &&& i + hashes < line.len()
    &&& forall|k: int| 0 <= k < hashes ==> #[trigger] line[i + 1 + k] == '#'
}

pub open spec fn mark(s: RScan, doc: bool) -> RScan {
    if doc {
        RScan { has_doc: true, ..s }
    } else {
        RScan { has_comment: true, ..s }
    }
}

pub open spec fn r_step(line: Seq<char>, s: RScan) -> RScan {
    let i = s.i;
    let c = line[i];
    match s.mode {
        RMode::Normal => {
            if is_ascii_ws(c) {
                RScan { i: i + 1, ..s }
            } else if pair_at(line, i, '/', '/') {
                RScan { i: line.len() as int, ..mark(s, is_doc_line_comment(line, i)) }
            } else if pair_at(line, i, '/', '*') {
                let doc = is_doc_block_comment(line, i);
                RScan { i: i + 2, mode: RMode::Block { depth: 1, doc }, ..mark(s, doc) }
            } else if raw_start(line, i) is Some {
                let h = raw_start(line, i)->0;
                RScan { i: i + 2 + h, mode: RMode::Raw { hashes: h as usize }, has_code: true, ..s }
            } else if c == '"' {
                RScan { i: i + 1, mode: RMode::Str { escaped: false }, has_code: true, ..s }
            } else {
                RScan { i: i + 1, has_code: true, ..s }
            }
        },
        RMode::Str { escaped } => {
            if c == '\\' && !escaped {
                RScan { i: i + 1, mode: RMode::Str { escaped: true }, has_code: true, ..s }
            } else if c == '"' && !escaped {
                RScan { i: i + 1, mode: RMode::Normal, has_code: true, ..s }
            } else {
                RScan { i: i + 1, mode: RMode::Str { escaped: false }, has_code: true, ..s }
            }
        },
        RMode::Raw { hashes } => {
            if raw_end(line, i, hashes as int) {
                RScan { i: i + hashes + 1, mode: RMode::Normal, has_code: true, ..s }
            } else {
                RScan { i: i + 1, has_code: true, ..s }
            }
        },
        RMode::Block { depth, doc } => {
            let s2 = mark(s, doc);
            if pair_at(line, i, '/', '*') {
                RScan { i: i + 2, mode: RMode::Block { depth: (depth + 1) as usize, doc }, ..s2 }
            } else if pair_at(line, i, '*', '/') {
                if depth == 1 {
                    RScan { i: i + 2, mode: RMode::Normal, ..s2 }
                } else {
                    RScan { i: i + 2, mode: RMode::Block { depth: (depth - 1) as usize, doc }, ..s2 }
                }
            } else {
                RScan { i: i + 1, ..s2 }
            }
        },
    }
}

pub open spec fn r_run(line: Seq<char>, s: RScan) -> RScan
    decreases line.len() - s.i,
{
    if 0 <= s.i < line.len() {
        let n = r_step(line, s);
        if s.i < n.i <= line.len() {
            r_run(line, n)
        } else {
            n
        }
    } else {
        s
    }
}

/// Flags carried into a line by the mode it starts in.
pub open spec fn r_start(m: RMode) -> RScan {
    RScan {
        i: 0,
        mode: m,
        has_code: m is Str || m is Raw,
        has_comment: m matches RMode::Block { doc, .. } && !doc,
        has_doc: m matches RMode::Block { doc, .. } && doc,
    }
}

pub open spec fn r_line(line: Seq<char>, m: RMode) -> (LineKind, RMode) {
    let end = r_run(line, r_start(m));
    (kind_from_flags(end.has_code, end.has_comment, end.has_doc), end.mode)
}

/// Whitespace read in normal code changes nothing but the position.
proof fn lemma_r_run_blanks(line: Seq<char>, s: RScan, k: int)
    requires
        0 <= s.i <= k <= line.len(),
        s.mode == RMode::Normal,
        forall|j: int| s.i <= j < k ==> is_ascii_ws(#[trigger] line[j]),
    ensures
        r_run(line, s) == r_run(line, RScan { i: k, ..s }),
    decreases k - s.i,
{
    if s.i < k {
        assert(is_ascii_ws(line[s.i]));
        let n = r_step(line, s);
        assert(n == RScan { i: s.i + 1, ..s });
        lemma_r_run_blanks(line, n, k);
        assert(RScan { i: k, ..n } == RScan { i: k, ..s });
    } else {
        assert(RScan { i: k, ..s } == s);
    }
}

/// A line read in normal code that starts, after blanks, with `//` and one more
/// character `c`, then `rest`.
proof fn lemma_r_line_comment(ws: Seq<char>, c: char, rest: Seq<char>)
    requires
        forall|j: int| 0 <= j < ws.len() ==> is_ascii_ws(#[trigger] ws[j]),
    ensures
        ({
            let line = ws + seq!['/', '/', c] + rest;
            let doc = (c == '/' && !(rest.len() > 0 && rest[0] == '/')) || c == '!';
            r_line(line, RMode::Normal) == (if doc {
                LineKind::Doc
            } else {
                LineKind::Comment
            }, RMode::Normal)
        }),
{
    let line = ws + seq!['/', '/', c] + rest;
    let k = ws.len() as int;
    assert(line[k] == '/' && line[k + 1] == '/' && line[k + 2] == c);
    assert(rest.len() > 0 ==> line[k + 3] == rest[0]);
    assert(k + 3 < line.len() <==> rest.len() > 0);
    let s0 = r_start(RMode::Normal);
    assert forall|j: int| s0.i <= j < k implies is_ascii_ws(#[trigger] line[j]) by {
        assert(line[j] == ws[j]);
    }
    lemma_r_run_blanks(line, s0, k);
    let sk = RScan { i: k, ..s0 };
    let n = r_step(line, sk);
    assert(pair_at(line, k, '/', '/'));
    assert(n.i == line.len());
    assert(r_run(line, n) == n);
    assert(r_run(line, sk) == n);
}

/// Rust line comments read in normal code, after any blanks: `//!` (inner) and
/// `///` not followed by another `/` (outer) are documentation, `////` and a
/// plain `//` are comments, and code stays normal on the next line.
pub proof fn lemma_rust_line_comments(ws: Seq<char>, rest: Seq<char>)
    requires
        forall|j: int| 0 <= j < ws.len() ==> is_ascii_ws(#[trigger] ws[j]),
    ensures
        r_line(ws + "//!"@ + rest, RMode::Normal) == (LineKind::Doc, RMode::Normal),
        !(rest.len() > 0 && rest[0] == '/') ==> r_line(ws + "///"@ + rest, RMode::Normal) == (
            LineKind::Doc,
            RMode::Normal,
        ),
        r_line(ws + "////"@ + rest, RMode::Normal) == (LineKind::Comment, RMode::Normal),
        !(rest.len() > 0 && (rest[0] == '/' || rest[0] == '!')) ==> r_line(ws + "//"@ + rest, RMode::Normal)
            == (LineKind::Comment, RMode::Normal),
{
    reveal_strlit("//!");
    reveal_strlit("///");
    reveal_strlit("////");
    reveal_strlit("//");
    lemma_r_line_comment(ws, '!', rest);
    assert(ws + "//!"@ + rest =~= ws + seq!['/', '/', '!'] + rest);
    lemma_r_line_comment(ws, '/', rest);
    assert(ws + "///"@ + rest =~= ws + seq!['/', '/', '/'] + rest);
    lemma_r_line_comment(ws, '/', seq!['/'] + rest);
    assert(ws + "////"@ + rest =~= ws + seq!['/', '/', '/'] + (seq!['/'] + rest));
    if rest.len() > 0 && !(rest[0] == '/' || rest[0] == '!') {
        lemma_r_line_comment(ws, rest[0], rest.drop_first());
        assert(ws + "//"@ + rest =~= ws + seq!['/', '/', rest[0]] + rest.drop_first());
    } else if rest.len() == 0 {
        let line = ws + "//"@;
        let k = ws.len() as int;
        assert(line[k] == '/' && line[k + 1] == '/');
        let s0 = r_start(RMode::Normal);
        assert forall|j: int| s0.i <= j < k implies is_ascii_ws(#[trigger] line[j]) by {
            assert(line[j] == ws[j]);
        }
        lemma_r_run_blanks(line, s0, k);
        let sk = RScan { i: k, ..s0 };
        let n = r_step(line, sk);
        assert(pair_at(line, k, '/', '/'));
        assert(!is_doc_line_comment(line, k));
        assert(r_run(line, n) == n);
    assert(r_run(line, sk) == n);
        assert(ws + "//"@ + rest =~= line);
    }
}

pub open spec fn r_fold(lines: Seq<Seq<char>>, n: int) -> (Seq<LineKind>, RMode)
    decreases n,
{
    if n <= 0 {
        (Seq::empty(), RMode::Normal)
    } else {
        let (ks, m) = r_fold(lines, n - 1);
        let (k, m2) = r_line(lines[n - 1], m);
        (ks.push(k), m2)
    }
}

pub open spec fn r_raw_kinds(lines: Seq<Seq<char>>) -> Seq<LineKind> {
    r_fold(lines, lines.len() as int).0
}

pub open spec fn r_effective_kinds(lines: Seq<Seq<char>>, o: ClassificationOptions) -> Seq<LineKind> {
    r_raw_kinds(lines).map_values(|k: LineKind| spec_normalize_doc_mixed(k, o))
}

pub open spec fn r_reason_for_kind(k: LineKind) -> Seq<char> {
    match k {
        LineKind::Blank => "line contains only whitespace"@,
        LineKind::Code => "line contains Rust code or string literal content without comments"@,
        LineKind::Comment => "line is part of a regular Rust comment"@,
        LineKind::Doc => "line is part of a Rust documentation comment"@,
        LineKind::Mixed => "line contains both Rust code and comment segments"@,
    }
}

pub open spec fn r_reason(raw: LineKind, eff: LineKind) -> Seq<char> {
    if raw == LineKind::Doc && eff == LineKind::Code {
        "line matched a Rust documentation comment, but classification policy counts docs as code"@
    } else if raw == LineKind::Mixed && eff == LineKind::Comment {
        "line contains both Rust code and comment segments, but classification policy excludes mixed lines from code"@
    } else {
        r_reason_for_kind(eff)
    }
}

pub open spec fn r_reasons(lines: Seq<Seq<char>>, o: ClassificationOptions) -> Seq<Seq<char>> {
    Seq::new(
        lines.len(),
        |i: int| r_reason(r_raw_kinds(lines)[i], r_effective_kinds(lines, o)[i]),
    )
}

fn count_hashes_exec(line: &[char], j: usize) -> (r: usize)
    requires
        j <= line.len(),
    ensures
        r == count_hashes(line@, j as int),
        j + r <= line.len(),
{
    let mut k = j;
    while k < line.len() && line[k] == '#'
        invariant
            j <= k <= line.len(),
            count_hashes(line@, j as int) == (k - j) + count_hashes(line@, k as int),
        decreases line.len() - k,
    {
        k += 1;
    }
    k - j
}

pub fn match_raw_string_start(line: &[char], i: usize) -> (r: Option<usize>)
    requires
        i < line.len(),
    ensures
        r matches Some(h) ==> raw_start(line@, i as int) == Some(h as nat),
        r is None ==> raw_start(line@, i as int) is None,
{
    if line[i] != 'r' {
        return None;
    }
    let h = count_hashes_exec(line, i + 1);
    let cursor = i + 1 + h;
    if cursor < line.len() && line[cursor] == '"' {
        Some(h)
    } else {
        None
    }
}

pub fn is_raw_string_end(line: &[char], i: usize, hashes: usize) -> (r: bool)
    requires
        i < line.len(),
    ensures
        r == raw_end(line@, i as int, hashes as int),
{
    if line[i] != '"' {
        return false;
    }
    if hashes >= line.len() - i {
        return false;
    }
    let mut k: usize = 0;
    while k < hashes
        invariant
            i + hashes < line.len(),
            k <= hashes,
            forall|m: int| 0 <= m < k ==> #[trigger] line@[i + 1 + m] == '#',
        decreases hashes - k,
    {
        if line[i + 1 + k] != '#' {
            return false;
        }
        k += 1;
    }
    true
}

pub fn doc_line_comment(line: &[char], i: usize) -> (r: bool)
    ensures
        r == is_doc_line_comment(line@, i as int),
{
    (triple_at_exec(line, i, '/', '/', '/') && !quad_at_exec(line, i, '/', '/', '/', '/'))
        || triple_at_exec(line, i, '/', '/', '!')
}

pub fn doc_block_comment(line: &[char], i: usize) -> (r: bool)
    ensures
        r == is_doc_block_comment(line@, i as int),
{
    (triple_at_exec(line, i, '/', '*', '*') && !quad_at_exec(line, i, '/', '*', '*', '*'))
        || triple_at_exec(line, i, '/', '*', '!')
}

/// Classifies one line, updating the mode carried to the next line.
pub fn classify_line(line: &[char], mode: &mut RMode) -> (k: LineKind)
    requires
        mode_ok(*old(mode)),
        depth_of(*old(mode)) + line.len() <= usize::MAX,
    ensures
        (k, *final(mode)) == r_line(line@, *old(mode)),
        mode_ok(*final(mode)),
        depth_of(*final(mode)) <= depth_of(*old(mode)) + line.len(),
{
    let ghost m0 = *mode;
    let mut has_code = matches!(*mode, RMode::Str { .. } | RMode::Raw { .. });
    let mut has_comment = match *mode {
        RMode::Block { doc, .. } => !doc,
        _ => false,
    };
    let mut has_doc = match *mode {
        RMode::Block { doc, .. } => doc,
        _ => false,
    };
    let mut index: usize = 0;
    assert(r_start(m0) == RScan { i: 0, mode: *mode, has_code, has_comment, has_doc });
    while index < line.len()
        invariant
            index <= line.len(),
            mode_ok(*mode),
            depth_of(*mode) <= depth_of(m0) + index,
            depth_of(m0) + line.len() <= usize::MAX,
            r_run(line@, RScan { i: index as int, mode: *mode, has_code, has_comment, has_doc })
                == r_run(line@, r_start(m0)),
        decreases line.len() - index,
    {
        let ghost cur = RScan { i: index as int, mode: *mode, has_code, has_comment, has_doc };
        let c = line[index];
        match *mode {
            RMode::Normal => {
                if ascii_ws(c) {
                    index += 1;
                } else if pair_at_exec(line, index, '/', '/') {
                    if doc_line_comment(line, index) {
                        has_doc = true;
                    } else {
                        has_comment = true;
                    }
                    index = line.len();
                } else if pair_at_exec(line, index, '/', '*') {
                    let doc = doc_block_comment(line, index);
                    if doc {
                        has_doc = true;
                    } else {
                        has_comment = true;
                    }
                    *mode = RMode::Block { depth: 1, doc };
                    index += 2;
                } else {
                    match match_raw_string_start(line, index) {
                        Some(h) => {
                            has_code = true;
                            *mode = RMode::Raw { hashes: h };
                            index += 2 + h;
                        },
                        None => {
                            has_code = true;
                            if c == '"' {
                                *mode = RMode::Str { escaped: false };
                            }
                            index += 1;
                        },
                    }
                }
            },
            RMode::Str { escaped } => {
                has_code = true;
                if c == '\\' && !escaped {
                    *mode = RMode::Str { escaped: true };
                } else if c == '"' && !escaped {
                    *mode = RMode::Normal;
                } else {
                    *mode = RMode::Str { escaped: false };
                }
                index += 1;
            },
            RMode::Raw { hashes } => {
                has_code = true;
                if is_raw_string_end(line, index, hashes) {
                    *mode = RMode::Normal;
                    index += hashes + 1;
                } else {
                    index += 1;
                }
            },
            RMode::Block { depth, doc } => {
                if doc {
                    has_doc = true;
                } else {
                    has_comment = true;
                }
                if pair_at_exec(line, index, '/', '*') {
                    *mode = RMode::Block { depth: depth + 1, doc };
                    index += 2;
                } else if pair_at_exec(line, index, '*', '/') {
                    if depth == 1 {
                        *mode = RMode::Normal;
                    } else {
                        *mode = RMode::Block { depth: depth - 1, doc };
                    }
                    index += 2;
                } else {
                    index += 1;
                }
            },
        }
        proof {
            let n = RScan { i: index as int, mode: *mode, has_code, has_comment, has_doc };
            assert(r_step(line@, cur) == n);
        }
    }
    kind_of_flags(has_code, has_comment, has_doc)
}

pub fn line_reason(raw: LineKind, eff: LineKind) -> (r: &'static str)
    ensures
        r@ == r_reason(raw, eff),
{
    if raw == LineKind::Doc && eff == LineKind::Code {
        "line matched a Rust documentation comment, but classification policy counts docs as code"
    } else if raw == LineKind::Mixed && eff == LineKind::Comment {
        "line contains both Rust code and comment segments, but classification policy excludes mixed lines from code"
    } else {
        match eff {
            LineKind::Blank => "line contains only whitespace",
            LineKind::Code => "line contains Rust code or string literal content without comments",
            LineKind::Comment => "line is part of a regular Rust comment",
            LineKind::Doc => "line is part of a Rust documentation comment",
            LineKind::Mixed => "line contains both Rust code and comment segments",
        }
    }
}

pub fn classifier_status() -> (r: &'static str)
    ensures
        r@ == "deterministic rust backend classifier"@,
{
    "deterministic rust backend classifier"
}

/// Classifies the text of a Rust source file.
pub fn classify_file(
    path: &str,
    contents: &str,
    bytes: u64,
    category: FileCategory,
    options: &ClassificationOptions,
) -> (a: BackendFileAnalysis)
    requires
        split_lines(contents@).len() <= u32::MAX,
    ensures
        analysis_of(
            a,
            path@,
            Language::Rust,
            category,
            bytes,
            split_lines(contents@),
            r_effective_kinds(split_lines(contents@), *options),
            r_reasons(split_lines(contents@), *options),
        ),
        a.warnings@.len() == 0,
{
    let text = chars_of(contents);
    let lines = split_lines_exec(text.as_slice());
    let ghost ls = split_lines(contents@);
    proof {
        lemma_lines_match(lines@, contents@);
        lemma_split_lines_bound(contents@);
        lemma_r_fold_len(ls, ls.len() as int);
    }
    let mut kinds: Vec<LineKind> = Vec::new();
    let mut reasons: Vec<String> = Vec::new();
    let mut mode = RMode::Normal;
    let mut i: usize = 0;
    while i < lines.len()
        invariant
            i <= lines.len(),
            seqs_of(lines@) == ls,
            total_len(ls) <= text.len(),
            r_raw_kinds(ls).len() == ls.len(),
            r_fold(ls, i as int).1 == mode,
            mode_ok(mode),
            depth_of(mode) <= total_len(ls.take(i as int)),
            kinds@ == r_effective_kinds(ls, *options).take(i as int),
            strings_of(reasons@) == r_reasons(ls, *options).take(i as int),
        decreases lines.len() - i,
    {
        proof {
            assert(lines@[i as int]@ == ls[i as int]);
            lemma_total_len_prefix(ls, i as int);
            lemma_total_len_take(ls, i as int);
        }
        let raw = classify_line(lines[i].as_slice(), &mut mode);
        let eff = normalize_doc_mixed(raw, options);
        let reason = owned(line_reason(raw, eff));
        proof {
            assert(r_fold(ls, i + 1).0 == r_fold(ls, i as int).0.push(raw));
            lemma_r_fold_prefix(ls, i + 1);
            assert(r_raw_kinds(ls).take(i + 1)[i as int] == raw);
            assert(r_raw_kinds(ls)[i as int] == raw);
            assert(r_effective_kinds(ls, *options)[i as int] == eff);
            assert(r_reasons(ls, *options)[i as int] == reason@);
        }
        let ghost old_reasons = reasons@;
        kinds.push(eff);
        reasons.push(reason);
        proof {
            assert(strings_of(reasons@) =~= strings_of(old_reasons).push(reasons@[i as int]@));
            assert(kinds@ =~= r_effective_kinds(ls, *options).take(i + 1));
            assert(strings_of(reasons@) =~= r_reasons(ls, *options).take(i + 1));
        }
        i += 1;
    }
    proof {
        assert(kinds@ =~= r_effective_kinds(ls, *options));
        assert(strings_of(reasons@) =~= r_reasons(ls, *options));
    }
    assemble(path, Language::Rust, category, bytes, &lines, &kinds, &reasons, Vec::new())
}

proof fn lemma_r_fold_len(lines: Seq<Seq<char>>, n: int)
    requires
        0 <= n,
    ensures
        r_fold(lines, n).0.len() == n,
    decreases n,
{
    if n > 0 {
        lemma_r_fold_len(lines, n - 1);
    }
}

proof fn lemma_r_fold_prefix(lines: Seq<Seq<char>>, n: int)
    requires
        0 <= n <= lines.len(),
    ensures
        r_fold(lines, n).0 == r_raw_kinds(lines).take(n),
    decreases lines.len() - n,
{
    lemma_r_fold_len(lines, n);
    lemma_r_fold_len(lines, lines.len() as int);
    if n < lines.len() {
        lemma_r_fold_prefix(lines, n + 1);
        assert(r_fold(lines, n + 1).0.take(n) =~= r_fold(lines, n).0);
        assert(r_raw_kinds(lines).take(n + 1).take(n) =~= r_raw_kinds(lines).take(n));
    } else {
        assert(r_raw_kinds(lines).take(n) =~= r_raw_kinds(lines));
    }
}

} // verus!
