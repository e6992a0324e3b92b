//! C, C++, Java, Swift, Objective-C and Zig: `//` line comments, `/* */` block
//! comments (not in Zig), double-quoted strings and single-quoted character literals.
use vstd::prelude::*;

use crate::lines::{
    analysis_of, assemble, kind_from_flags, kind_of_flags, lemma_lines_match, normalize_mixed,
    seqs_of, spec_normalize_mixed, strings_of, BackendFileAnalysis, LineKind,
};
use crate::text::{
    all_ws, ascii_alnum, ascii_digit, ascii_ws, chars_of, concat3, is_ascii_alnum,
    is_ascii_digit, is_ascii_ws, is_blank, owned, pair_at, pair_at_exec, split_lines,
    split_lines_exec,
};
use crate::types::{language_name, ClassificationOptions, FileCategory, Language};

verus! {

#[derive(Debug, Clone, Copy, PartialEq, Eq, Structural)]
pub enum CMode {
    Code,
    Str { escaped: bool },
    Chr { escaped: bool },
    Block,
}

/// Scanner position inside one line.
pub struct CScan {
    pub i: int,
    pub mode: CMode,
    pub has_code: bool,
    pub has_comment: bool,
}

/// A string or character literal that ended the previous line with a backslash
/// starts the next line unescaped.
pub open spec fn clear_escape(m: CMode) -> CMode {
    match m {
        CMode::Str { escaped: true } => CMode::Str { escaped: false },
        CMode::Chr { escaped: true } => CMode::Chr { escaped: false },
        other => other,
    }
}

/// Start of the token that ends just before `t`: digits, letters, `.` and `_`.
pub open spec fn token_start(line: Seq<char>, t: int) -> int
    decreases t,
{
    if t > 0 && t <= line.len() && (is_ascii_alnum(line[t - 1]) || line[t - 1] == '.' || line[t
        - 1] == '_') {
        token_start(line, t - 1)
    } else {
        t
    }
}

/// A `'` between two alphanumerics inside a number (`1'000`) separates digits.
pub open spec fn is_digit_separator(line: Seq<char>, i: int) -> bool {
    &&& 1 <= i
    &&& i + 1 < line.len()
    &&& is_ascii_alnum(line[i - 1])
    &&& is_ascii_alnum(line[i + 1])
    &&& is_ascii_digit(line[token_start(line, i)])
}

/// One step of the scanner.
pub open spec fn c_step(line: Seq<char>, lang: Language, s: CScan) -> CScan {
    let i = s.i;
    let c = line[i];
    match s.mode {
        CMode::Code => {
            if is_ascii_ws(c) {
                CScan { i: i + 1, ..s }
            } else if pair_at(line, i, '/', '/') {
                CScan { i: line.len() as int, has_comment: true, ..s }
            } else if lang != Language::Zig && pair_at(line, i, '/', '*') {
                CScan { i: i + 2, mode: CMode::Block, has_comment: true, ..s }
            } else if c == '"' {
                CScan { i: i + 1, mode: CMode::Str { escaped: false }, has_code: true, ..s }
            } else if c == '\'' {
                if lang == Language::Cpp && is_digit_separator(line, i) {
                    CScan { i: i + 1, has_code: true, ..s }
                } else {
                    CScan { i: i + 1, mode: CMode::Chr { escaped: false }, has_code: true, ..s }
                }
            } else {
                CScan { i: i + 1, has_code: true, ..s }
            }
        },
        CMode::Str { escaped } => {
            let mode = if c == '\\' && !escaped {
                CMode::Str { escaped: true }
            } else if c == '"' && !escaped {
                CMode::Code
            } else {
                CMode::Str { escaped: false }
            };
            CScan { i: i + 1, mode, has_code: true, ..s }
        },
        CMode::Chr { escaped } => {
            let mode = if c == '\\' && !escaped {
                CMode::Chr { escaped: true }
            } else if c == '\'' && !escaped {
                CMode::Code
            } else {
                CMode::Chr { escaped: false }
            };
            CScan { i: i + 1, mode, has_code: true, ..s }
        },
        CMode::Block => {
            if pair_at(line, i, '*', '/') {
                CScan { i: i + 2, mode: CMode::Code, has_comment: true, ..s }
            } else {
                CScan { i: i + 1, has_comment: true, ..s }
            }
        },
    }
}

pub open spec fn c_run(line: Seq<char>, lang: Language, s: CScan) -> CScan
    decreases line.len() - s.i,
{
    if 0 <= s.i < line.len() {
        let n = c_step(line, lang, s);
        if s.i < n.i <= line.len() {
            c_run(line, lang, n)
        } else {
            n
        }
    } else {
        s
    }
}

/// The kind of one line and the mode the next line starts in.
pub open spec fn c_line(line: Seq<char>, lang: Language, mode: CMode) -> (LineKind, CMode) {
    let m = clear_escape(mode);
    if all_ws(line) && m == CMode::Code {
        (LineKind::Blank, m)
    } else {
        let start = CScan {
            i: 0,
            mode: m,
            has_code: m is Str || m is Chr,
            has_comment: m is Block,
        };
        let end = c_run(line, lang, start);
        (kind_from_flags(end.has_code, end.has_comment, false), end.mode)
    }
}

/// Raw kinds of the first `n` lines, and the mode after them.
pub open spec fn c_fold(lines: Seq<Seq<char>>, lang: Language, n: int) -> (Seq<LineKind>, CMode)
    decreases n,
{
    if n <= 0 {
        (Seq::empty(), CMode::Code)
    } else {
        let (ks, m) = c_fold(lines, lang, n - 1);
        let (k, m2) = c_line(lines[n - 1], lang, m);
        (ks.push(k), m2)
    }
}

pub open spec fn c_raw_kinds(lines: Seq<Seq<char>>, lang: Language) -> Seq<LineKind> {
    c_fold(lines, lang, lines.len() as int).0
}

pub open spec fn c_effective_kinds(
    lines: Seq<Seq<char>>,
    lang: Language,
    o: ClassificationOptions,
) -> Seq<LineKind> {
    c_raw_kinds(lines, lang).map_values(|k: LineKind| spec_normalize_mixed(k, o))
}

pub open spec fn c_reason(raw: LineKind, eff: LineKind, lang: Language) -> Seq<char> {
    let name = language_name(lang);
    if raw == LineKind::Mixed && eff == LineKind::Comment {
        "line contains "@ + name
            + " code and comment segments, but classification policy excludes mixed lines from code"@
    } else {
        match eff {
            LineKind::Blank => "line contains only whitespace"@,
            LineKind::Code => "line contains "@ + name + " code or quoted literals without comments"@,
            LineKind::Mixed => "line contains "@ + name + " code and comment segments"@,
            _ => "line is part of a "@ + name + " comment"@,
        }
    }
}

pub open spec fn c_reasons(
    lines: Seq<Seq<char>>,
    lang: Language,
    o: ClassificationOptions,
) -> Seq<Seq<char>> {
    Seq::new(
        lines.len(),
        |i: int| c_reason(c_raw_kinds(lines, lang)[i], c_effective_kinds(lines, lang, o)[i], lang),
    )
}

fn token_start_exec(line: &[char], t: usize) -> (r: usize)
    requires
        t <= line.len(),
    ensures
        r as int == token_start(line@, t as int),
        r <= t,
{
    let mut s = t;
    while s > 0 && (ascii_alnum(line[s - 1]) || line[s - 1] == '.' || line[s - 1] == '_')
        invariant
            s <= t <= line.len(),
            token_start(line@, s as int) == token_start(line@, t as int),
        decreases s,
    {
        s -= 1;
    }
    s
}

pub fn is_cpp_digit_separator(line: &[char], i: usize) -> (r: bool)
    requires
        i < line.len(),
    ensures
        r == is_digit_separator(line@, i as int),
{
    if i < 1 || i + 1 >= line.len() {
        return false;
    }
    if !ascii_alnum(line[i - 1]) || !ascii_alnum(line[i + 1]) {
        return false;
    }
    let t = token_start_exec(line, i);
    ascii_digit(line[t])
}

/// Classifies one line, updating the mode carried to the next line.
pub fn classify_line(line: &[char], mode: &mut CMode, lang: Language) -> (k: LineKind)
    ensures
        (k, *final(mode)) == c_line(line@, lang, *old(mode)),
{
    let m = match *mode {
        CMode::Str { escaped: true } => CMode::Str { escaped: false },
        CMode::Chr { escaped: true } => CMode::Chr { escaped: false },
        other => other,
    };
    *mode = m;
    if is_blank(line) && m == CMode::Code {
        return LineKind::Blank;
    }
    let mut has_code = matches!(m, CMode::Str { .. } | CMode::Chr { .. });
    let mut has_comment = matches!(m, CMode::Block);
    let mut index: usize = 0;
    let ghost start = CScan { i: 0, mode: m, has_code, has_comment };
    while index < line.len()
        invariant
            index <= line.len(),
            c_run(line@, lang, CScan { i: index as int, mode: *mode, has_code, has_comment })
                == c_run(line@, lang, start),
        decreases line.len() - index,
    {
        let ghost cur = CScan { i: index as int, mode: *mode, has_code, has_comment };
        let c = line[index];
        match *mode {
            CMode::Code => {
                if ascii_ws(c) {
                    index += 1;
                } else if pair_at_exec(line, index, '/', '/') {
                    has_comment = true;
                    index = line.len();
                } else if lang != Language::Zig && pair_at_exec(line, index, '/', '*') {
                    has_comment = true;
                    *mode = CMode::Block;
                    index += 2;
                } else if c == '"' {
                    has_code = true;
                    *mode = CMode::Str { escaped: false };
                    index += 1;
                } else if c == '\'' {
                    has_code = true;
                    if lang == Language::Cpp && is_cpp_digit_separator(line, index) {
                        index += 1;
                    } else {
                        *mode = CMode::Chr { escaped: false };
                        index += 1;
                    }
                } else {
                    has_code = true;
                    index += 1;
                }
            },
            CMode::Str { escaped } => {
                has_code = true;
                if c == '\\' && !escaped {
                    *mode = CMode::Str { escaped: true };
                } else if c == '"' && !escaped {
                    *mode = CMode::Code;
                } else {
                    *mode = CMode::Str { escaped: false };
                }
                index += 1;
            },
            CMode::Chr { escaped } => {
                has_code = true;
                if c == '\\' && !escaped {
                    *mode = CMode::Chr { escaped: true };
                } else if c == '\'' && !escaped {
                    *mode = CMode::Code;
                } else {
                    *mode = CMode::Chr { escaped: false };
                }
                index += 1;
            },
            CMode::Block => {
                has_comment = true;
                if pair_at_exec(line, index, '*', '/') {
                    *mode = CMode::Code;
                    index += 2;
                } else {
                    index += 1;
                }
            },
        }
        proof {
            let n = CScan { i: index as int, mode: *mode, has_code, has_comment };
            assert(c_step(line@, lang, cur) == n);
        }
    }
    kind_of_flags(has_code, has_comment, false)
}

pub fn line_reason(raw: LineKind, eff: LineKind, lang: Language) -> (r: String)
    ensures
        r@ == c_reason(raw, eff, lang),
{
    let name = lang.as_str();
    if raw == LineKind::Mixed && eff == LineKind::Comment {
        concat3(
            "line contains ",
            name,
            " code and comment segments, but classification policy excludes mixed lines from code",
        )
    } else {
        match eff {
            LineKind::Blank => owned("line contains only whitespace"),
            LineKind::Code => concat3(
                "line contains ",
                name,
                " code or quoted literals without comments",
            ),
            LineKind::Mixed => concat3("line contains ", name, " code and comment segments"),
            _ => concat3("line is part of a ", name, " comment"),
        }
    }
}

/// Classifies the text of a C-family source file.
pub fn classify_file(
    path: &str,
    contents: &str,
    bytes: u64,
    language: Language,
    category: FileCategory,
    options: &ClassificationOptions,
) -> (a: BackendFileAnalysis)
    requires
        split_lines(contents@).len() <= u32::MAX,
    ensures
        analysis_of(
            a,
            path@,
            language,
            category,
            bytes,
            split_lines(contents@),
            c_effective_kinds(split_lines(contents@), language, *options),
            c_reasons(split_lines(contents@), language, *options),
        ),
        a.warnings@.len() == 0,
{
    let text = chars_of(contents);
    let lines = split_lines_exec(text.as_slice());
    let ghost ls = split_lines(contents@);
    proof {
        lemma_lines_match(lines@, contents@);
    }
    let mut kinds: Vec<LineKind> = Vec::new();
    let mut reasons: Vec<String> = Vec::new();
    let mut mode = CMode::Code;
    let mut i: usize = 0;
    proof {
        lemma_c_fold_len(ls, language, ls.len() as int);
    }
    while i < lines.len()
        invariant
            i <= lines.len(),
            c_raw_kinds(ls, language).len() == ls.len(),
            seqs_of(lines@) == ls,
            c_fold(ls, language, i as int).1 == mode,
            kinds@ == c_effective_kinds(ls, language, *options).take(i as int),
            strings_of(reasons@) == c_reasons(ls, language, *options).take(i as int),
        decreases lines.len() - i,
    {
        let raw = classify_line(lines[i].as_slice(), &mut mode, language);
        let eff = normalize_mixed(raw, options);
        let reason = line_reason(raw, eff, language);
        proof {
            assert(lines@[i as int]@ == ls[i as int]);
            assert(c_fold(ls, language, i + 1).0 == c_fold(ls, language, i as int).0.push(raw));
            lemma_c_fold_prefix(ls, language, i + 1);
            assert(c_raw_kinds(ls, language).take(i + 1)[i as int] == raw);
            assert(c_raw_kinds(ls, language)[i as int] == raw);
            assert(c_effective_kinds(ls, language, *options)[i as int] == eff);
            assert(c_reasons(ls, language, *options)[i as int] == reason@);
        }
        let ghost old_reasons = reasons@;
        kinds.push(eff);
        reasons.push(reason);
        proof {
            assert(strings_of(reasons@) =~= strings_of(old_reasons).push(reasons@[i as int]@));
            assert(kinds@ =~= c_effective_kinds(ls, language, *options).take(i + 1));
            assert(strings_of(reasons@) =~= c_reasons(ls, language, *options).take(i + 1));
        }
        i += 1;
    }
    proof {
        assert(kinds@ =~= c_effective_kinds(ls, language, *options));
        assert(strings_of(reasons@) =~= c_reasons(ls, language, *options));
    }
    assemble(path, language, category, bytes, &lines, &kinds, &reasons, Vec::new())
}

/// The raw kinds of a prefix are the prefix of the raw kinds.
pub proof fn lemma_c_fold_prefix(lines: Seq<Seq<char>>, lang: Language, n: int)
    requires
        0 <= n <= lines.len(),
    ensures
        c_fold(lines, lang, n).0.len() == n,
        c_fold(lines, lang, n).0 == c_raw_kinds(lines, lang).take(n),
    decreases lines.len() - n,
{
    lemma_c_fold_len(lines, lang, n);
    lemma_c_fold_len(lines, lang, lines.len() as int);
    if n < lines.len() {
        lemma_c_fold_prefix(lines, lang, n + 1);
        assert(c_fold(lines, lang, n + 1).0.take(n) =~= c_fold(lines, lang, n).0);
        assert(c_raw_kinds(lines, lang).take(n + 1).take(n) =~= c_raw_kinds(lines, lang).take(n));
    } else {
        assert(c_raw_kinds(lines, lang).take(n) =~= c_raw_kinds(lines, lang));
    }
}

proof fn lemma_c_fold_len(lines: Seq<Seq<char>>, lang: Language, n: int)
    requires
        0 <= n,
    ensures
        c_fold(lines, lang, n).0.len() == n,
    decreases n,
{
    if n > 0 {
        lemma_c_fold_len(lines, lang, n - 1);
    }
}

} // verus!
