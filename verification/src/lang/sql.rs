//! SQL: `--` line comments, `/* */` block comments, single- and double-quoted
//! literals (a doubled quote stays inside), and PostgreSQL dollar-quoted strings
//! (`$$ ... $$`, `$tag$ ... $tag$`), which may span lines.
use vstd::prelude::*;

use crate::lines::{
    analysis_of, assemble, kind_from_flags, kind_of_flags, lemma_lines_match, normalize_mixed,
    seqs_of, spec_normalize_mixed, strings_of, BackendFileAnalysis, LineKind,
};
use crate::text::{
    all_ws, ascii_alnum, ascii_digit, ascii_ws, chars_of, is_ascii_alnum, is_ascii_digit,
    is_ascii_ws, is_blank, is_ws, matches_chars_at, occurs_at, owned, pair_at, pair_at_exec,
    split_lines, split_lines_exec,
};
use crate::types::{ClassificationOptions, FileCategory, Language};

verus! {

/// Where a line starts: in code, in a block comment, or inside a dollar-quoted
/// string closed by `delimiter` (`$tag$`).
#[derive(Debug, Clone)]
pub enum QMode {
    Code,
    Block,
    Dollar { delimiter: Vec<char> },
}

/// `QMode` as plain values.
pub enum QState {
    Code,
    Block,
    Dollar(Seq<char>),
}

pub open spec fn qmode_view(m: QMode) -> QState {
    match m {
        QMode::Code => QState::Code,
        QMode::Block => QState::Block,
        QMode::Dollar { delimiter } => QState::Dollar(delimiter@),
    }
}

/// A dollar-quote delimiter is at least `$$`.
pub open spec fn qstate_ok(m: QState) -> bool {
    m matches QState::Dollar(d) ==> d.len() >= 2
}

pub open spec fn is_ident_char(c: char) -> bool {
    is_ascii_alnum(c) || c == '_'
}

/// First index at or after `j` that is not a letter, digit or `_`.
pub open spec fn tag_end(line: Seq<char>, j: int) -> int
    decreases line.len() - j,
{
    if 0 <= j < line.len() && is_ident_char(line[j]) {
        tag_end(line, j + 1)
    } else {
        j
    }
}

/// A dollar quote opens at `i`: `$`, a tag that is empty or does not start with a
/// digit, `$`, not glued to a preceding identifier. Gives the delimiter.
pub open spec fn dollar_open(line: Seq<char>, i: int) -> Option<Seq<char>> {
    let e = tag_end(line, i + 1);
    if 0 <= i < line.len() && line[i] == '$' && (i == 0 || !is_ident_char(line[i - 1])) && e
        < line.len() && line[e] == '$' && (e == i + 1 || !is_ascii_digit(line[i + 1])) {
        Some(line.subrange(i, e + 1))
    } else {
        None
    }
}

/// Index just past a quoted literal whose opening quote `q` is before `k`; a doubled
/// quote stays inside. The end of the line when it is not closed.
pub open spec fn quoted_end(line: Seq<char>, k: int, q: char) -> int
    decreases line.len() - k,
{
    if k < 0 || k >= line.len() {
        line.len() as int
    } else if line[k] == q {
        if k + 1 < line.len() && line[k + 1] == q {
            quoted_end(line, k + 2, q)
        } else {
            k + 1
        }
    } else {
        quoted_end(line, k + 1, q)
    }
}

/// Scanner position inside one line.
pub struct QScan {
    pub i: int,
    pub mode: QState,
    pub has_code: bool,
    pub has_comment: bool,
}

pub open spec fn q_step(line: Seq<char>, s: QScan) -> QScan {
    let i = s.i;
    let c = line[i];
    match s.mode {
        QState::Block => {
            if pair_at(line, i, '*', '/') {
                QScan { i: i + 2, mode: QState::Code, has_comment: true, ..s }
            } else {
                QScan { i: i + 1, has_comment: true, ..s }
            }
        },
        QState::Dollar(d) => {
            if occurs_at(line, i, d) {
                QScan { i: i + d.len(), mode: QState::Code, has_code: true, ..s }
            } else {
                QScan { i: i + 1, has_code: true, ..s }
            }
        },
        QState::Code => {
            if is_ascii_ws(c) {
                QScan { i: i + 1, ..s }
            } else if pair_at(line, i, '-', '-') {
                QScan { i: line.len() as int, has_comment: true, ..s }
            } else if pair_at(line, i, '/', '*') {
                QScan { i: i + 2, mode: QState::Block, has_comment: true, ..s }
            } else if c == '\'' || c == '"' {
                QScan { i: quoted_end(line, i + 1, c), has_code: true, ..s }
            } else if dollar_open(line, i) is Some {
                let d = dollar_open(line, i)->0;
                QScan { i: i + d.len(), mode: QState::Dollar(d), has_code: true, ..s }
            } else {
                QScan { i: i + 1, has_code: true, ..s }
            }
        },
    }
}

pub open spec fn q_run(line: Seq<char>, s: QScan) -> QScan
    decreases line.len() - s.i,
{
    if 0 <= s.i < line.len() {
        let n = q_step(line, s);
        if s.i < n.i <= line.len() {
            q_run(line, n)
        } else {
            n
        }
    } else {
        s
    }
}

/// The kind of one line and the mode the next line starts in.
pub open spec fn q_line(line: Seq<char>, mode: QState) -> (LineKind, QState) {
    if all_ws(line) && mode is Code {
        (LineKind::Blank, mode)
    } else {
        let start = QScan {
            i: 0,
            mode,
            has_code: mode is Dollar,
            has_comment: mode is Block,
        };
        let end = q_run(line, start);
        (kind_from_flags(end.has_code, end.has_comment, false), end.mode)
    }
}

proof fn lemma_q_run_blanks(line: Seq<char>, s: QScan, k: int)
    requires
        0 <= s.i <= k <= line.len(),
        s.mode is Code,
        forall|j: int| s.i <= j < k ==> is_ascii_ws(#[trigger] line[j]),
    ensures
        q_run(line, s) == q_run(line, QScan { i: k, ..s }),
    decreases k - s.i,
{
    if s.i < k {
        assert(is_ascii_ws(line[s.i]));
        let n = q_step(line, s);
        assert(n == QScan { i: s.i + 1, ..s });
        lemma_q_run_blanks(line, n, k);
        assert(QScan { i: k, ..n } == QScan { i: k, ..s });
    } else {
        assert(QScan { i: k, ..s } == s);
    }
}

/// Blanks never count as code: a line read in code that is blanks, then `--` and
/// anything, is a comment line, and the next line is read in code again.
pub proof fn lemma_sql_indented_line_comment(ws: Seq<char>, rest: Seq<char>)
    requires
        forall|j: int| 0 <= j < ws.len() ==> is_ascii_ws(#[trigger] ws[j]),
    ensures
        q_line(ws + seq!['-', '-'] + rest, QState::Code) == (LineKind::Comment, QState::Code),
{
    let line = ws + seq!['-', '-'] + rest;
    let k = ws.len() as int;
    assert(line[k] == '-' && line[k + 1] == '-');
    assert(!is_ws('-'));
    assert(!all_ws(line));
    let s0 = QScan { i: 0, mode: QState::Code, has_code: false, has_comment: false };
    assert forall|j: int| s0.i <= j < k implies is_ascii_ws(#[trigger] line[j]) by {
        assert(line[j] == ws[j]);
    }
    lemma_q_run_blanks(line, s0, k);
    let sk = QScan { i: k, ..s0 };
    assert(pair_at(line, k, '-', '-'));
    let n = q_step(line, sk);
    assert(n == QScan { i: line.len() as int, has_comment: true, ..sk });
    assert(q_run(line, n) == n);
    assert(q_run(line, sk) == n);
}

pub open spec fn q_fold(lines: Seq<Seq<char>>, n: int) -> (Seq<LineKind>, QState)
    decreases n,
{
    if n <= 0 {
        (Seq::empty(), QState::Code)
    } else {
        let (ks, m) = q_fold(lines, n - 1);
        let (k, m2) = q_line(lines[n - 1], m);
        (ks.push(k), m2)
    }
}

pub open spec fn q_raw_kinds(lines: Seq<Seq<char>>) -> Seq<LineKind> {
    q_fold(lines, lines.len() as int).0
}

pub open spec fn q_effective_kinds(lines: Seq<Seq<char>>, o: ClassificationOptions) -> Seq<
    LineKind,
> {
    q_raw_kinds(lines).map_values(|k: LineKind| spec_normalize_mixed(k, o))
}

pub open spec fn q_reason(raw: LineKind, eff: LineKind) -> Seq<char> {
    if raw == LineKind::Mixed && eff == LineKind::Comment {
        "line contains SQL code and comment segments, but classification policy excludes mixed lines from code"@
    } else {
        match eff {
            LineKind::Blank => "line contains only whitespace"@,
            LineKind::Code => "line contains SQL code or quoted SQL content without comments"@,
            LineKind::Mixed => "line contains SQL code and comment segments"@,
            _ => "line is part of a SQL comment"@,
        }
    }
}

pub open spec fn q_reasons(lines: Seq<Seq<char>>, o: ClassificationOptions) -> Seq<Seq<char>> {
    Seq::new(
        lines.len(),
        |i: int| q_reason(q_raw_kinds(lines)[i], q_effective_kinds(lines, o)[i]),
    )
}

fn quoted_end_exec(line: &[char], k: usize, q: char) -> (r: usize)
    requires
        k <= line.len(),
    ensures
        r as int == quoted_end(line@, k as int, q),
        k <= r <= line.len(),
{
    let mut j = k;
    while j < line.len()
        invariant
            k <= j <= line.len(),
            quoted_end(line@, j as int, q) == quoted_end(line@, k as int, q),
        decreases line.len() - j,
    {
        if line[j] == q {
            if j + 1 < line.len() && line[j + 1] == q {
                j += 2;
            } else {
                return j + 1;
            }
        } else {
            j += 1;
        }
    }
    j
}

fn tag_end_exec(line: &[char], j: usize) -> (r: usize)
    requires
        j <= line.len(),
    ensures
        r as int == tag_end(line@, j as int),
        j <= r <= line.len(),
{
    let mut k = j;
    while k < line.len() && (ascii_alnum(line[k]) || line[k] == '_')
        invariant
            j <= k <= line.len(),
            tag_end(line@, k as int) == tag_end(line@, j as int),
        decreases line.len() - k,
    {
        k += 1;
    }
    k
}

/// The delimiter of a dollar quote opening at `i`, if one does.
pub fn match_dollar_open(line: &[char], i: usize) -> (r: Option<Vec<char>>)
    requires
        i < line.len(),
    ensures
        match dollar_open(line@, i as int) {
            Some(d) => r matches Some(v) && v@ == d,
            None => r is None,
        },
        r matches Some(v) ==> 2 <= v.len() && i + v.len() <= line.len(),
{
    if line[i] != '$' {
        return None;
    }
    if i > 0 && (ascii_alnum(line[i - 1]) || line[i - 1] == '_') {
        return None;
    }
    let e = tag_end_exec(line, i + 1);
    if e >= line.len() || line[e] != '$' {
        return None;
    }
    if e != i + 1 && ascii_digit(line[i + 1]) {
        return None;
    }
    let mut out: Vec<char> = Vec::new();
    let mut k = i;
    while k <= e
        invariant
            i <= k <= e + 1,
            e < line.len(),
            out@ == line@.subrange(i as int, k as int),
        decreases e + 1 - k,
    {
        out.push(line[k]);
        k += 1;
        assert(out@ =~= line@.subrange(i as int, k as int));
    }
    Some(out)
}

/// Classifies one line, updating the mode carried to the next line.
pub fn classify_line(line: &[char], mode: &mut QMode) -> (k: LineKind)
    requires
        qstate_ok(qmode_view(*old(mode))),
    ensures
        (k, qmode_view(*final(mode))) == q_line(line@, qmode_view(*old(mode))),
        qstate_ok(qmode_view(*final(mode))),
{
    if is_blank(line) && matches!(*mode, QMode::Code) {
        return LineKind::Blank;
    }
    let mut has_code = matches!(*mode, QMode::Dollar { .. });
    let mut has_comment = matches!(*mode, QMode::Block);
    let mut index: usize = 0;
    let ghost start = QScan { i: 0, mode: qmode_view(*mode), has_code, has_comment };
    while index < line.len()
        invariant
            index <= line.len(),
            qstate_ok(qmode_view(*mode)),
            q_run(line@, QScan { i: index as int, mode: qmode_view(*mode), has_code, has_comment })
                == q_run(line@, start),
        decreases line.len() - index,
    {
        let ghost cur = QScan { i: index as int, mode: qmode_view(*mode), has_code, has_comment };
        let c = line[index];
        let next_mode: Option<QMode> = match mode {
            QMode::Block => {
                has_comment = true;
                if pair_at_exec(line, index, '*', '/') {
                    index += 2;
                    Some(QMode::Code)
                } else {
                    index += 1;
                    None
                }
            },
            QMode::Dollar { delimiter } => {
                has_code = true;
                if matches_chars_at(line, index, delimiter.as_slice()) {
                    index += delimiter.len();
                    Some(QMode::Code)
                } else {
                    index += 1;
                    None
                }
            },
            QMode::Code => {
                if ascii_ws(c) {
                    index += 1;
                    None
                } else if pair_at_exec(line, index, '-', '-') {
                    has_comment = true;
                    index = line.len();
                    None
                } else if pair_at_exec(line, index, '/', '*') {
                    has_comment = true;
                    index += 2;
                    Some(QMode::Block)
                } else if c == '\'' || c == '"' {
                    has_code = true;
                    index = quoted_end_exec(line, index + 1, c);
                    None
                } else {
                    has_code = true;
                    match match_dollar_open(line, index) {
                        Some(d) => {
                            index += d.len();
                            Some(QMode::Dollar { delimiter: d })
                        },
                        None => {
                            index += 1;
                            None
                        },
                    }
                }
            },
        };
        if let Some(m) = next_mode {
            *mode = m;
        }
        proof {
            let n = QScan { i: index as int, mode: qmode_view(*mode), has_code, has_comment };
            assert(q_step(line@, cur) == n);
        }
    }
    kind_of_flags(has_code, has_comment, false)
}

pub fn line_reason(raw: LineKind, eff: LineKind) -> (r: &'static str)
    ensures
        r@ == q_reason(raw, eff),
{
    if raw == LineKind::Mixed && eff == LineKind::Comment {
        "line contains SQL code and comment segments, but classification policy excludes mixed lines from code"
    } else {
        match eff {
            LineKind::Blank => "line contains only whitespace",
            LineKind::Code => "line contains SQL code or quoted SQL content without comments",
            LineKind::Mixed => "line contains SQL code and comment segments",
            _ => "line is part of a SQL comment",
        }
    }
}

/// Classifies the text of a SQL file.
pub fn classify_file(
    path: &str,
    contents: &str,
    bytes: u64,
    category: FileCategory,
    options: &ClassificationOptions,
) -> (a: BackendFileAnalysis)
    requires
        split_lines(contents@).len() <= u32::MAX,
    ensures
        analysis_of(
            a,
            path@,
            Language::Sql,
            category,
            bytes,
            split_lines(contents@),
            q_effective_kinds(split_lines(contents@), *options),
            q_reasons(split_lines(contents@), *options),
        ),
        a.warnings@.len() == 0,
{
    let text = chars_of(contents);
    let lines = split_lines_exec(text.as_slice());
    let ghost ls = split_lines(contents@);
    proof {
        lemma_lines_match(lines@, contents@);
        lemma_q_fold_len(ls, ls.len() as int);
    }
    let mut kinds: Vec<LineKind> = Vec::new();
    let mut reasons: Vec<String> = Vec::new();
    let mut state = QMode::Code;
    let mut i: usize = 0;
    while i < lines.len()
        invariant
            i <= lines.len(),
            q_raw_kinds(ls).len() == ls.len(),
            seqs_of(lines@) == ls,
            q_fold(ls, i as int).1 == qmode_view(state),
            qstate_ok(qmode_view(state)),
            kinds@ == q_effective_kinds(ls, *options).take(i as int),
            strings_of(reasons@) == q_reasons(ls, *options).take(i as int),
        decreases lines.len() - i,
    {
        proof {
            assert(lines@[i as int]@ == ls[i as int]);
            assert(ls.len() == lines.len());
            assert(strings_of(reasons@).len() == reasons@.len());
        }
        let raw = classify_line(lines[i].as_slice(), &mut state);
        let eff = normalize_mixed(raw, options);
        let reason = owned(line_reason(raw, eff));
        proof {
            assert(q_fold(ls, i + 1).0 == q_fold(ls, i as int).0.push(raw));
            lemma_q_fold_prefix(ls, i + 1);
            assert(q_raw_kinds(ls).take(i + 1)[i as int] == raw);
            assert(q_raw_kinds(ls)[i as int] == raw);
            assert(q_effective_kinds(ls, *options)[i as int] == eff);
            assert(q_reasons(ls, *options)[i as int] == reason@);
        }
        let ghost old_reasons = reasons@;
        kinds.push(eff);
        reasons.push(reason);
        proof {
            assert(strings_of(reasons@) =~= strings_of(old_reasons).push(reasons@[i as int]@));
            assert(kinds@ =~= q_effective_kinds(ls, *options).take(i + 1));
            assert(strings_of(reasons@) =~= q_reasons(ls, *options).take(i + 1));
        }
        i += 1;
    }
    proof {
        assert(kinds@ =~= q_effective_kinds(ls, *options));
        assert(strings_of(reasons@) =~= q_reasons(ls, *options));
    }
    assemble(path, Language::Sql, category, bytes, &lines, &kinds, &reasons, Vec::new())
}

proof fn lemma_q_fold_len(lines: Seq<Seq<char>>, n: int)
    requires
        0 <= n,
    ensures
        q_fold(lines, n).0.len() == n,
    decreases n,
{
    if n > 0 {
        lemma_q_fold_len(lines, n - 1);
    }
}

proof fn lemma_q_fold_prefix(lines: Seq<Seq<char>>, n: int)
    requires
        0 <= n <= lines.len(),
    ensures
        q_fold(lines, n).0 == q_raw_kinds(lines).take(n),
    decreases lines.len() - n,
{
    lemma_q_fold_len(lines, n);
    lemma_q_fold_len(lines, lines.len() as int);
    if n < lines.len() {
        lemma_q_fold_prefix(lines, n + 1);
        assert(q_fold(lines, n + 1).0.take(n) =~= q_fold(lines, n).0);
        assert(q_raw_kinds(lines).take(n + 1).take(n) =~= q_raw_kinds(lines).take(n));
    } else {
        assert(q_raw_kinds(lines).take(n) =~= q_raw_kinds(lines));
    }
}

} // verus!
