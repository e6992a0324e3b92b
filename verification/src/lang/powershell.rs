//! PowerShell: `#` line comments, `<# #>` block comments, double-quoted strings
//! with backtick escapes, single-quoted strings, and backtick escapes in code.
use vstd::prelude::*;

use crate::lines::{
    analysis_of, assemble, kind_from_flags, kind_of_flags, lemma_lines_match, normalize_mixed,
    seqs_of, spec_normalize_mixed, strings_of, BackendFileAnalysis, LineKind,
};
use crate::text::{
    all_ws, ascii_ws, chars_of, is_ascii_ws, is_blank, owned, pair_at, pair_at_exec,
    split_lines, split_lines_exec,
};
use crate::types::{ClassificationOptions, FileCategory, Language};

verus! {

#[derive(Debug, Clone, Copy, PartialEq, Eq, Structural)]
pub enum WMode {
    Code,
    DoubleQuoted { escaped: bool },
    SingleQuoted,
    BlockComment,
}

/// Scanner position inside one line.
pub struct WScan {
    pub i: int,
    pub mode: WMode,
    pub has_code: bool,
    pub has_comment: bool,
}

pub open spec fn w_step(line: Seq<char>, s: WScan) -> WScan {
    let i = s.i;
    let c = line[i];
    match s.mode {
        WMode::Code => {
            if is_ascii_ws(c) {
                WScan { i: i + 1, ..s }
            } else if c == '`' {
                WScan {
                    i: if i + 1 < line.len() {
                        i + 2
                    } else {
                        i + 1
                    },
                    has_code: true,
                    ..s
                }
            } else if pair_at(line, i, '<', '#') {
                WScan { i: i + 2, mode: WMode::BlockComment, has_comment: true, ..s }
            } else if c == '#' {
                WScan { i: line.len() as int, has_comment: true, ..s }
            } else if c == '"' {
                WScan { i: i + 1, mode: WMode::DoubleQuoted { escaped: false }, has_code: true, ..s }
            } else if c == '\'' {
                WScan { i: i + 1, mode: WMode::SingleQuoted, has_code: true, ..s }
            } else {
                WScan { i: i + 1, has_code: true, ..s }
            }
        },
        WMode::DoubleQuoted { escaped } => {
            let mode = if c == '`' && !escaped {
                WMode::DoubleQuoted { escaped: true }
            } else if c == '"' && !escaped {
                WMode::Code
            } else {
                WMode::DoubleQuoted { escaped: false }
            };
            WScan { i: i + 1, mode, has_code: true, ..s }
        },
        WMode::SingleQuoted => WScan {
            i: i + 1,
            mode: if c == '\'' {
                WMode::Code
            } else {
                WMode::SingleQuoted
            },
            has_code: true,
            ..s
        },
        WMode::BlockComment => {
            if pair_at(line, i, '#', '>') {
                WScan { i: i + 2, mode: WMode::Code, has_comment: true, ..s }
            } else {
                WScan { i: i + 1, has_comment: true, ..s }
            }
        },
    }
}

pub open spec fn w_run(line: Seq<char>, s: WScan) -> WScan
    decreases line.len() - s.i,
{
    if 0 <= s.i < line.len() {
        let n = w_step(line, s);
        if s.i < n.i <= line.len() {
            w_run(line, n)
        } else {
            n
        }
    } else {
        s
    }
}

/// The kind of one line and the mode the next line starts in.
pub open spec fn w_line(line: Seq<char>, mode: WMode) -> (LineKind, WMode) {
    if all_ws(line) && mode == WMode::Code {
        (LineKind::Blank, mode)
    } else {
        let start = WScan {
            i: 0,
            mode,
            has_code: mode is DoubleQuoted || mode is SingleQuoted,
            has_comment: mode is BlockComment,
        };
        let end = w_run(line, start);
        (kind_from_flags(end.has_code, end.has_comment, false), end.mode)
    }
}

pub open spec fn w_fold(lines: Seq<Seq<char>>, n: int) -> (Seq<LineKind>, WMode)
    decreases n,
{
    if n <= 0 {
        (Seq::empty(), WMode::Code)
    } else {
        let (ks, m) = w_fold(lines, n - 1);
        let (k, m2) = w_line(lines[n - 1], m);
        (ks.push(k), m2)
    }
}

pub open spec fn w_raw_kinds(lines: Seq<Seq<char>>) -> Seq<LineKind> {
    w_fold(lines, lines.len() as int).0
}

pub open spec fn w_effective_kinds(lines: Seq<Seq<char>>, o: ClassificationOptions) -> Seq<
    LineKind,
> {
    w_raw_kinds(lines).map_values(|k: LineKind| spec_normalize_mixed(k, o))
}

pub open spec fn w_reason(raw: LineKind, eff: LineKind) -> Seq<char> {
    if raw == LineKind::Mixed && eff == LineKind::Comment {
        "line contains PowerShell code and comment segments, but classification policy excludes mixed lines from code"@
    } else {
        match eff {
            LineKind::Blank => "line contains only whitespace"@,
            LineKind::Code => "line contains PowerShell code or quoted content without comments"@,
            LineKind::Mixed => "line contains PowerShell code and comment segments"@,
            _ => "line is part of a PowerShell comment"@,
        }
    }
}

pub open spec fn w_reasons(lines: Seq<Seq<char>>, o: ClassificationOptions) -> Seq<Seq<char>> {
    Seq::new(
        lines.len(),
        |i: int| w_reason(w_raw_kinds(lines)[i], w_effective_kinds(lines, o)[i]),
    )
}

/// Classifies one line, updating the mode carried to the next line.
pub fn classify_line(line: &[char], mode: &mut WMode) -> (k: LineKind)
    ensures
        (k, *final(mode)) == w_line(line@, *old(mode)),
{
    if is_blank(line) && *mode == WMode::Code {
        return LineKind::Blank;
    }
    let mut has_code = matches!(*mode, WMode::DoubleQuoted { .. } | WMode::SingleQuoted);
    let mut has_comment = matches!(*mode, WMode::BlockComment);
    let mut index: usize = 0;
    let ghost start = WScan { i: 0, mode: *mode, has_code, has_comment };
    while index < line.len()
        invariant
            index <= line.len(),
            w_run(line@, WScan { i: index as int, mode: *mode, has_code, has_comment })
                == w_run(line@, start),
        decreases line.len() - index,
    {
        let ghost cur = WScan { i: index as int, mode: *mode, has_code, has_comment };
        let c = line[index];
        match *mode {
            WMode::Code => {
                if ascii_ws(c) {
                    index += 1;
                } else if c == '`' {
                    has_code = true;
                    index += 1;
                    if index < line.len() {
                        index += 1;
                    }
                } else if pair_at_exec(line, index, '<', '#') {
                    has_comment = true;
                    *mode = WMode::BlockComment;
                    index += 2;
                } else if c == '#' {
                    has_comment = true;
                    index = line.len();
                } else if c == '"' {
                    has_code = true;
                    *mode = WMode::DoubleQuoted { escaped: false };
                    index += 1;
                } else if c == '\'' {
                    has_code = true;
                    *mode = WMode::SingleQuoted;
                    index += 1;
                } else {
                    has_code = true;
                    index += 1;
                }
            },
            WMode::DoubleQuoted { escaped } => {
                has_code = true;
                if c == '`' && !escaped {
                    *mode = WMode::DoubleQuoted { escaped: true };
                } else if c == '"' && !escaped {
                    *mode = WMode::Code;
                } else {
                    *mode = WMode::DoubleQuoted { escaped: false };
                }
                index += 1;
            },
            WMode::SingleQuoted => {
                has_code = true;
                if c == '\'' {
                    *mode = WMode::Code;
                }
                index += 1;
            },
            WMode::BlockComment => {
                has_comment = true;
                if pair_at_exec(line, index, '#', '>') {
                    *mode = WMode::Code;
                    index += 2;
                } else {
                    index += 1;
                }
            },
        }
        proof {
            let n = WScan { i: index as int, mode: *mode, has_code, has_comment };
            assert(w_step(line@, cur) == n);
        }
    }
    kind_of_flags(has_code, has_comment, false)
}

pub fn line_reason(raw: LineKind, eff: LineKind) -> (r: &'static str)
    ensures
        r@ == w_reason(raw, eff),
{
    if raw == LineKind::Mixed && eff == LineKind::Comment {
        "line contains PowerShell code and comment segments, but classification policy excludes mixed lines from code"
    } else {
        match eff {
            LineKind::Blank => "line contains only whitespace",
            LineKind::Code => "line contains PowerShell code or quoted content without comments",
            LineKind::Mixed => "line contains PowerShell code and comment segments",
            _ => "line is part of a PowerShell comment",
        }
    }
}

/// Classifies the text of a PowerShell script.
pub fn classify_file(
    path: &str,
    contents: &str,
    bytes: u64,
    category: FileCategory,
    options: &ClassificationOptions,
) -> (a: BackendFileAnalysis)
    requires
        split_lines(contents@).len() <= u32::MAX,
    ensures
        analysis_of(
            a,
            path@,
            Language::PowerShell,
            category,
            bytes,
            split_lines(contents@),
            w_effective_kinds(split_lines(contents@), *options),
            w_reasons(split_lines(contents@), *options),
        ),
        a.warnings@.len() == 0,
{
    let text = chars_of(contents);
    let lines = split_lines_exec(text.as_slice());
    let ghost ls = split_lines(contents@);
    proof {
        lemma_lines_match(lines@, contents@);
        lemma_w_fold_len(ls, ls.len() as int);
    }
    let mut kinds: Vec<LineKind> = Vec::new();
    let mut reasons: Vec<String> = Vec::new();
    let mut state = WMode::Code;
    let mut i: usize = 0;
    while i < lines.len()
        invariant
            i <= lines.len(),
            w_raw_kinds(ls).len() == ls.len(),
            seqs_of(lines@) == ls,
            w_fold(ls, i as int).1 == state,
            kinds@ == w_effective_kinds(ls, *options).take(i as int),
            strings_of(reasons@) == w_reasons(ls, *options).take(i as int),
        decreases lines.len() - i,
    {
        proof {
            assert(lines@[i as int]@ == ls[i as int]);
            assert(ls.len() == lines.len());
            assert(strings_of(reasons@).len() == reasons@.len());
        }
        let raw = classify_line(lines[i].as_slice(), &mut state);
        let eff = normalize_mixed(raw, options);
        let reason = owned(line_reason(raw, eff));
        proof {
            assert(w_fold(ls, i + 1).0 == w_fold(ls, i as int).0.push(raw));
            lemma_w_fold_prefix(ls, i + 1);
            assert(w_raw_kinds(ls).take(i + 1)[i as int] == raw);
            assert(w_raw_kinds(ls)[i as int] == raw);
            assert(w_effective_kinds(ls, *options)[i as int] == eff);
            assert(w_reasons(ls, *options)[i as int] == reason@);
        }
        let ghost old_reasons = reasons@;
        kinds.push(eff);
        reasons.push(reason);
        proof {
            assert(strings_of(reasons@) =~= strings_of(old_reasons).push(reasons@[i as int]@));
            assert(kinds@ =~= w_effective_kinds(ls, *options).take(i + 1));
            assert(strings_of(reasons@) =~= w_reasons(ls, *options).take(i + 1));
        }
        i += 1;
    }
    proof {
        assert(kinds@ =~= w_effective_kinds(ls, *options));
        assert(strings_of(reasons@) =~= w_reasons(ls, *options));
    }
    assemble(path, Language::PowerShell, category, bytes, &lines, &kinds, &reasons, Vec::new())
}

proof fn lemma_w_fold_len(lines: Seq<Seq<char>>, n: int)
    requires
        0 <= n,
    ensures
        w_fold(lines, n).0.len() == n,
    decreases n,
{
    if n > 0 {
        lemma_w_fold_len(lines, n - 1);
    }
}

proof fn lemma_w_fold_prefix(lines: Seq<Seq<char>>, n: int)
    requires
        0 <= n <= lines.len(),
    ensures
        w_fold(lines, n).0 == w_raw_kinds(lines).take(n),
    decreases lines.len() - n,
{
    lemma_w_fold_len(lines, n);
    lemma_w_fold_len(lines, lines.len() as int);
    if n < lines.len() {
        lemma_w_fold_prefix(lines, n + 1);
        assert(w_fold(lines, n + 1).0.take(n) =~= w_fold(lines, n).0);
        assert(w_raw_kinds(lines).take(n + 1).take(n) =~= w_raw_kinds(lines).take(n));
    } else {
        assert(w_raw_kinds(lines).take(n) =~= w_raw_kinds(lines));
    }
}

} // verus!
