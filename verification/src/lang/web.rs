//! HTML (`<!-- -->` comments) and CSS (`/* */` comments, quoted strings).
use vstd::prelude::*;

use crate::lines::{
    analysis_of, assemble, kind_from_flags, kind_of_flags, lemma_lines_match, normalize_mixed,
    seqs_of, spec_normalize_mixed, strings_of, BackendFileAnalysis, LineKind,
};
use crate::text::{
    all_ws, ascii_ws, chars_of, concat2, is_ascii_ws, is_blank, owned, pair_at, pair_at_exec,
    quad_at, quad_at_exec, split_lines, split_lines_exec, triple_at, triple_at_exec,
};
use crate::types::{language_name, ClassificationOptions, FileCategory, Language};

verus! {

// ---------------------------------------------------------------------------
// HTML
// ---------------------------------------------------------------------------

/// Scanner position inside one HTML line.
pub struct HScan {
    pub i: int,
    pub in_comment: bool,
    pub has_code: bool,
    pub has_comment: bool,
}

pub open spec fn h_step(line: Seq<char>, s: HScan) -> HScan {
    let i = s.i;
    if s.in_comment {
        if triple_at(line, i, '-', '-', '>') {
            HScan { i: i + 3, in_comment: false, has_comment: true, ..s }
        } else {
            HScan { i: i + 1, has_comment: true, ..s }
        }
    } else if quad_at(line, i, '<', '!', '-', '-') {
        HScan { i: i + 4, in_comment: true, has_comment: true, ..s }
    } else if !is_ascii_ws(line[i]) {
        HScan { i: i + 1, has_code: true, ..s }
    } else {
        HScan { i: i + 1, ..s }
    }
}

pub open spec fn h_run(line: Seq<char>, s: HScan) -> HScan
    decreases line.len() - s.i,
{
    if 0 <= s.i < line.len() {
        let n = h_step(line, s);
        if s.i < n.i <= line.len() {
            h_run(line, n)
        } else {
            n
        }
    } else {
        s
    }
}

/// The kind of one HTML line and whether a comment is still open after it.
pub open spec fn h_line(line: Seq<char>, in_comment: bool) -> (LineKind, bool) {
    if all_ws(line) && !in_comment {
        (LineKind::Blank, false)
    } else {
        let end = h_run(line, HScan { i: 0, in_comment, has_code: false, has_comment: in_comment });
        (kind_from_flags(end.has_code, end.has_comment, false), end.in_comment)
    }
}

pub open spec fn h_fold(lines: Seq<Seq<char>>, n: int) -> (Seq<LineKind>, bool)
    decreases n,
{
    if n <= 0 {
        (Seq::empty(), false)
    } else {
        let (ks, m) = h_fold(lines, n - 1);
        let (k, m2) = h_line(lines[n - 1], m);
        (ks.push(k), m2)
    }
}

pub open spec fn h_raw_kinds(lines: Seq<Seq<char>>) -> Seq<LineKind> {
    h_fold(lines, lines.len() as int).0
}

pub open spec fn h_effective_kinds(lines: Seq<Seq<char>>, o: ClassificationOptions) -> Seq<LineKind> {
    h_raw_kinds(lines).map_values(|k: LineKind| spec_normalize_mixed(k, o))
}

pub open spec fn h_reason(raw: LineKind, eff: LineKind) -> Seq<char> {
    if raw == LineKind::Mixed && eff == LineKind::Comment {
        "line contains HTML markup/text and comment segments, but classification policy excludes mixed lines from code"@
    } else {
        match eff {
            LineKind::Blank => "line contains only whitespace"@,
            LineKind::Code => "line contains HTML markup or text content without comments"@,
            LineKind::Mixed => "line contains HTML markup/text and comment segments"@,
            _ => "line is part of an HTML comment"@,
        }
    }
}

pub open spec fn h_reasons(lines: Seq<Seq<char>>, o: ClassificationOptions) -> Seq<Seq<char>> {
    Seq::new(lines.len(), |i: int| h_reason(h_raw_kinds(lines)[i], h_effective_kinds(lines, o)[i]))
}

/// Classifies one HTML line, updating whether a comment is open.
pub fn classify_html_line(line: &[char], in_comment: &mut bool) -> (k: LineKind)
    ensures
        (k, *final(in_comment)) == h_line(line@, *old(in_comment)),
{
    if is_blank(line) && !*in_comment {
        return LineKind::Blank;
    }
    let mut has_code = false;
    let mut has_comment = *in_comment;
    let mut index: usize = 0;
    let ghost start = HScan { i: 0, in_comment: *in_comment, has_code, has_comment };
    while index < line.len()
        invariant
            index <= line.len(),
            h_run(line@, HScan { i: index as int, in_comment: *in_comment, has_code, has_comment })
                == h_run(line@, start),
        decreases line.len() - index,
    {
        let ghost cur = HScan { i: index as int, in_comment: *in_comment, has_code, has_comment };
        if *in_comment {
            has_comment = true;
            if triple_at_exec(line, index, '-', '-', '>') {
                *in_comment = false;
                index += 3;
            } else {
                index += 1;
            }
        } else if quad_at_exec(line, index, '<', '!', '-', '-') {
            has_comment = true;
            *in_comment = true;
            index += 4;
        } else {
            if !ascii_ws(line[index]) {
                has_code = true;
            }
            index += 1;
        }
        proof {
            let n = HScan { i: index as int, in_comment: *in_comment, has_code, has_comment };
            assert(h_step(line@, cur) == n);
        }
    }
    kind_of_flags(has_code, has_comment, false)
}

pub fn h_line_reason(raw: LineKind, eff: LineKind) -> (r: &'static str)
    ensures
        r@ == h_reason(raw, eff),
{
    if raw == LineKind::Mixed && eff == LineKind::Comment {
        "line contains HTML markup/text and comment segments, but classification policy excludes mixed lines from code"
    } else {
        match eff {
            LineKind::Blank => "line contains only whitespace",
            LineKind::Code => "line contains HTML markup or text content without comments",
            LineKind::Mixed => "line contains HTML markup/text and comment segments",
            _ => "line is part of an HTML comment",
        }
    }
}

/// Classifies the text of an HTML file.
pub fn classify_html_file(
    path: &str,
    contents: &str,
    bytes: u64,
    category: FileCategory,
    options: &ClassificationOptions,
) -> (a: BackendFileAnalysis)
    requires
        split_lines(contents@).len() <= u32::MAX,
    ensures
        analysis_of(
            a,
            path@,
            Language::Html,
            category,
            bytes,
            split_lines(contents@),
            h_effective_kinds(split_lines(contents@), *options),
            h_reasons(split_lines(contents@), *options),
        ),
        a.warnings@.len() == 0,
{
    let text = chars_of(contents);
    let lines = split_lines_exec(text.as_slice());
    let ghost ls = split_lines(contents@);
    proof {
        lemma_lines_match(lines@, contents@);
        lemma_h_fold_len(ls, ls.len() as int);
    }
    let mut kinds: Vec<LineKind> = Vec::new();
    let mut reasons: Vec<String> = Vec::new();
    let mut state = false;
    let mut i: usize = 0;
    while i < lines.len()
        invariant
            i <= lines.len(),
            h_raw_kinds(ls).len() == ls.len(),
            seqs_of(lines@) == ls,
            h_fold(ls, i as int).1 == state,
            kinds@ == h_effective_kinds(ls, *options).take(i as int),
            strings_of(reasons@) == h_reasons(ls, *options).take(i as int),
        decreases lines.len() - i,
    {
        proof {
            assert(lines@[i as int]@ == ls[i as int]);
            assert(ls.len() == lines.len());
            assert(strings_of(reasons@).len() == reasons@.len());
        }
        let raw = classify_html_line(lines[i].as_slice(), &mut state);
        let eff = normalize_mixed(raw, options);
        let reason = owned(h_line_reason(raw, eff));
        proof {
            assert(h_fold(ls, i + 1).0 == h_fold(ls, i as int).0.push(raw));
            lemma_h_fold_prefix(ls, i + 1);
            assert(h_raw_kinds(ls).take(i + 1)[i as int] == raw);
            assert(h_raw_kinds(ls)[i as int] == raw);
            assert(h_effective_kinds(ls, *options)[i as int] == eff);
            assert(h_reasons(ls, *options)[i as int] == reason@);
        }
        let ghost old_reasons = reasons@;
        kinds.push(eff);
        reasons.push(reason);
        proof {
            assert(strings_of(reasons@) =~= strings_of(old_reasons).push(reasons@[i as int]@));
            assert(kinds@ =~= h_effective_kinds(ls, *options).take(i + 1));
            assert(strings_of(reasons@) =~= h_reasons(ls, *options).take(i + 1));
        }
        i += 1;
    }
    proof {
        assert(kinds@ =~= h_effective_kinds(ls, *options));
        assert(strings_of(reasons@) =~= h_reasons(ls, *options));
    }
    assemble(path, Language::Html, category, bytes, &lines, &kinds, &reasons, Vec::new())
}

proof fn lemma_h_fold_len(lines: Seq<Seq<char>>, n: int)
    requires
        0 <= n,
    ensures
        h_fold(lines, n).0.len() == n,
    decreases n,
{
    if n > 0 {
        lemma_h_fold_len(lines, n - 1);
    }
}

proof fn lemma_h_fold_prefix(lines: Seq<Seq<char>>, n: int)
    requires
        0 <= n <= lines.len(),
    ensures
        h_fold(lines, n).0 == h_raw_kinds(lines).take(n),
    decreases lines.len() - n,
{
    lemma_h_fold_len(lines, n);
    lemma_h_fold_len(lines, lines.len() as int);
    if n < lines.len() {
        lemma_h_fold_prefix(lines, n + 1);
        assert(h_fold(lines, n + 1).0.take(n) =~= h_fold(lines, n).0);
        assert(h_raw_kinds(lines).take(n + 1).take(n) =~= h_raw_kinds(lines).take(n));
    } else {
        assert(h_raw_kinds(lines).take(n) =~= h_raw_kinds(lines));
    }
}

// ---------------------------------------------------------------------------
// CSS
// ---------------------------------------------------------------------------

#[derive(Debug, Clone, Copy, PartialEq, Eq, Structural)]
pub enum CssMode {
    Code,
    SingleQuote { escaped: bool },
    DoubleQuote { escaped: bool },
    BlockComment,
}

/// Scanner position inside one CSS line.
pub struct CssScan {
    pub i: int,
    pub mode: CssMode,
    pub has_code: bool,
    pub has_comment: bool,
}

pub open spec fn css_step(line: Seq<char>, s: CssScan) -> CssScan {
    let i = s.i;
    let c = line[i];
    match s.mode {
        CssMode::Code => {
            if is_ascii_ws(c) {
                CssScan { i: i + 1, ..s }
            } else if pair_at(line, i, '/', '*') {
                CssScan { i: i + 2, mode: CssMode::BlockComment, has_comment: true, ..s }
            } else if c == '\'' {
                CssScan { i: i + 1, mode: CssMode::SingleQuote { escaped: false }, has_code: true, ..s }
            } else if c == '"' {
                CssScan { i: i + 1, mode: CssMode::DoubleQuote { escaped: false }, has_code: true, ..s }
            } else {
                CssScan { i: i + 1, has_code: true, ..s }
            }
        },
        CssMode::SingleQuote { escaped } => {
            let mode = if c == '\\' && !escaped {
                CssMode::SingleQuote { escaped: true }
            } else if c == '\'' && !escaped {
                CssMode::Code
            } else {
                CssMode::SingleQuote { escaped: false }
            };
            CssScan { i: i + 1, mode, has_code: true, ..s }
        },
        CssMode::DoubleQuote { escaped } => {
            let mode = if c == '\\' && !escaped {
                CssMode::DoubleQuote { escaped: true }
            } else if c == '"' && !escaped {
                CssMode::Code
            } else {
                CssMode::DoubleQuote { escaped: false }
            };
            CssScan { i: i + 1, mode, has_code: true, ..s }
        },
        CssMode::BlockComment => {
            if pair_at(line, i, '*', '/') {
                CssScan { i: i + 2, mode: CssMode::Code, has_comment: true, ..s }
            } else {
                CssScan { i: i + 1, has_comment: true, ..s }
            }
        },
    }
}

pub open spec fn css_run(line: Seq<char>, s: CssScan) -> CssScan
    decreases line.len() - s.i,
{
    if 0 <= s.i < line.len() {
        let n = css_step(line, s);
        if s.i < n.i <= line.len() {
            css_run(line, n)
        } else {
            n
        }
    } else {
        s
    }
}

pub open spec fn css_line(line: Seq<char>, mode: CssMode) -> (LineKind, CssMode) {
    if all_ws(line) && mode == CssMode::Code {
        (LineKind::Blank, mode)
    } else {
        let start = CssScan {
            i: 0,
            mode,
            has_code: mode is SingleQuote || mode is DoubleQuote,
            has_comment: mode is BlockComment,
        };
        let end = css_run(line, start);
        (kind_from_flags(end.has_code, end.has_comment, false), end.mode)
    }
}

pub open spec fn css_fold(lines: Seq<Seq<char>>, n: int) -> (Seq<LineKind>, CssMode)
    decreases n,
{
    if n <= 0 {
        (Seq::empty(), CssMode::Code)
    } else {
        let (ks, m) = css_fold(lines, n - 1);
        let (k, m2) = css_line(lines[n - 1], m);
        (ks.push(k), m2)
    }
}

pub open spec fn css_raw_kinds(lines: Seq<Seq<char>>) -> Seq<LineKind> {
    css_fold(lines, lines.len() as int).0
}

pub open spec fn css_effective_kinds(lines: Seq<Seq<char>>, o: ClassificationOptions) -> Seq<LineKind> {
    css_raw_kinds(lines).map_values(|k: LineKind| spec_normalize_mixed(k, o))
}

pub open spec fn css_reason(raw: LineKind, eff: LineKind) -> Seq<char> {
    if raw == LineKind::Mixed && eff == LineKind::Comment {
        "line contains CSS code and comment segments, but classification policy excludes mixed lines from code"@
    } else {
        match eff {
            LineKind::Blank => "line contains only whitespace"@,
            LineKind::Code => "line contains CSS selectors, declarations, or quoted content without comments"@,
            LineKind::Mixed => "line contains CSS code and comment segments"@,
            _ => "line is part of a CSS comment"@,
        }
    }
}

pub open spec fn css_reasons(lines: Seq<Seq<char>>, o: ClassificationOptions) -> Seq<Seq<char>> {
    Seq::new(lines.len(), |i: int| css_reason(css_raw_kinds(lines)[i], css_effective_kinds(lines, o)[i]))
}

/// Classifies one CSS line, updating the mode carried to the next line.
pub fn classify_css_line(line: &[char], mode: &mut CssMode) -> (k: LineKind)
    ensures
        (k, *final(mode)) == css_line(line@, *old(mode)),
{
    if is_blank(line) && *mode == CssMode::Code {
        return LineKind::Blank;
    }
    let mut has_code = matches!(*mode, CssMode::SingleQuote { .. } | CssMode::DoubleQuote { .. });
    let mut has_comment = matches!(*mode, CssMode::BlockComment);
    let mut index: usize = 0;
    let ghost start = CssScan { i: 0, mode: *mode, has_code, has_comment };
    while index < line.len()
        invariant
            index <= line.len(),
            css_run(line@, CssScan { i: index as int, mode: *mode, has_code, has_comment })
                == css_run(line@, start),
        decreases line.len() - index,
    {
        let ghost cur = CssScan { i: index as int, mode: *mode, has_code, has_comment };
        let c = line[index];
        match *mode {
            CssMode::Code => {
                if ascii_ws(c) {
                    index += 1;
                } else if pair_at_exec(line, index, '/', '*') {
                    has_comment = true;
                    *mode = CssMode::BlockComment;
                    index += 2;
                } else if c == '\'' {
                    has_code = true;
                    *mode = CssMode::SingleQuote { escaped: false };
                    index += 1;
                } else if c == '"' {
                    has_code = true;
                    *mode = CssMode::DoubleQuote { escaped: false };
                    index += 1;
                } else {
                    has_code = true;
                    index += 1;
                }
            },
            CssMode::SingleQuote { escaped } => {
                has_code = true;
                if c == '\\' && !escaped {
                    *mode = CssMode::SingleQuote { escaped: true };
                } else if c == '\'' && !escaped {
                    *mode = CssMode::Code;
                } else {
                    *mode = CssMode::SingleQuote { escaped: false };
                }
                index += 1;
            },
            CssMode::DoubleQuote { escaped } => {
                has_code = true;
                if c == '\\' && !escaped {
                    *mode = CssMode::DoubleQuote { escaped: true };
                } else if c == '"' && !escaped {
                    *mode = CssMode::Code;
                } else {
                    *mode = CssMode::DoubleQuote { escaped: false };
                }
                index += 1;
            },
            CssMode::BlockComment => {
                has_comment = true;
                if pair_at_exec(line, index, '*', '/') {
                    *mode = CssMode::Code;
                    index += 2;
                } else {
                    index += 1;
                }
            },
        }
        proof {
            let n = CssScan { i: index as int, mode: *mode, has_code, has_comment };
            assert(css_step(line@, cur) == n);
        }
    }
    kind_of_flags(has_code, has_comment, false)
}

pub fn css_line_reason(raw: LineKind, eff: LineKind) -> (r: &'static str)
    ensures
        r@ == css_reason(raw, eff),
{
    if raw == LineKind::Mixed && eff == LineKind::Comment {
        "line contains CSS code and comment segments, but classification policy excludes mixed lines from code"
    } else {
        match eff {
            LineKind::Blank => "line contains only whitespace",
            LineKind::Code => "line contains CSS selectors, declarations, or quoted content without comments",
            LineKind::Mixed => "line contains CSS code and comment segments",
            _ => "line is part of a CSS comment",
        }
    }
}

/// Classifies the text of a CSS file.
pub fn classify_css_file(
    path: &str,
    contents: &str,
    bytes: u64,
    category: FileCategory,
    options: &ClassificationOptions,
) -> (a: BackendFileAnalysis)
    requires
        split_lines(contents@).len() <= u32::MAX,
    ensures
        analysis_of(
            a,
            path@,
            Language::Css,
            category,
            bytes,
            split_lines(contents@),
            css_effective_kinds(split_lines(contents@), *options),
            css_reasons(split_lines(contents@), *options),
        ),
        a.warnings@.len() == 0,
{
    let text = chars_of(contents);
    let lines = split_lines_exec(text.as_slice());
    let ghost ls = split_lines(contents@);
    proof {
        lemma_lines_match(lines@, contents@);
        lemma_css_fold_len(ls, ls.len() as int);
    }
    let mut kinds: Vec<LineKind> = Vec::new();
    let mut reasons: Vec<String> = Vec::new();
    let mut state = CssMode::Code;
    let mut i: usize = 0;
    while i < lines.len()
        invariant
            i <= lines.len(),
            css_raw_kinds(ls).len() == ls.len(),
            seqs_of(lines@) == ls,
            css_fold(ls, i as int).1 == state,
            kinds@ == css_effective_kinds(ls, *options).take(i as int),
            strings_of(reasons@) == css_reasons(ls, *options).take(i as int),
        decreases lines.len() - i,
    {
        proof {
            assert(lines@[i as int]@ == ls[i as int]);
            assert(ls.len() == lines.len());
            assert(strings_of(reasons@).len() == reasons@.len());
        }
        let raw = classify_css_line(lines[i].as_slice(), &mut state);
        let eff = normalize_mixed(raw, options);
        let reason = owned(css_line_reason(raw, eff));
        proof {
            assert(css_fold(ls, i + 1).0 == css_fold(ls, i as int).0.push(raw));
            lemma_css_fold_prefix(ls, i + 1);
            assert(css_raw_kinds(ls).take(i + 1)[i as int] == raw);
            assert(css_raw_kinds(ls)[i as int] == raw);
            assert(css_effective_kinds(ls, *options)[i as int] == eff);
            assert(css_reasons(ls, *options)[i as int] == reason@);
        }
        let ghost old_reasons = reasons@;
        kinds.push(eff);
        reasons.push(reason);
        proof {
            assert(strings_of(reasons@) =~= strings_of(old_reasons).push(reasons@[i as int]@));
            assert(kinds@ =~= css_effective_kinds(ls, *options).take(i + 1));
            assert(strings_of(reasons@) =~= css_reasons(ls, *options).take(i + 1));
        }
        i += 1;
    }
    proof {
        assert(kinds@ =~= css_effective_kinds(ls, *options));
        assert(strings_of(reasons@) =~= css_reasons(ls, *options));
    }
    assemble(path, Language::Css, category, bytes, &lines, &kinds, &reasons, Vec::new())
}

proof fn lemma_css_fold_len(lines: Seq<Seq<char>>, n: int)
    requires
        0 <= n,
    ensures
        css_fold(lines, n).0.len() == n,
    decreases n,
{
    if n > 0 {
        lemma_css_fold_len(lines, n - 1);
    }
}

proof fn lemma_css_fold_prefix(lines: Seq<Seq<char>>, n: int)
    requires
        0 <= n <= lines.len(),
    ensures
        css_fold(lines, n).0 == css_raw_kinds(lines).take(n),
    decreases lines.len() - n,
{
    lemma_css_fold_len(lines, n);
    lemma_css_fold_len(lines, lines.len() as int);
    if n < lines.len() {
        lemma_css_fold_prefix(lines, n + 1);
        assert(css_fold(lines, n + 1).0.take(n) =~= css_fold(lines, n).0);
        assert(css_raw_kinds(lines).take(n + 1).take(n) =~= css_raw_kinds(lines).take(n));
    } else {
        assert(css_raw_kinds(lines).take(n) =~= css_raw_kinds(lines));
    }
}

// ---------------------------------------------------------------------------
// Either language
// ---------------------------------------------------------------------------

pub open spec fn is_web(language: Language) -> bool {
    language == Language::Html || language == Language::Css
}

pub open spec fn web_effective_kinds(lines: Seq<Seq<char>>, language: Language, o: ClassificationOptions) -> Seq<LineKind> {
    if language == Language::Html {
        h_effective_kinds(lines, o)
    } else if language == Language::Css {
        css_effective_kinds(lines, o)
    } else {
        Seq::empty()
    }
}

pub open spec fn web_reasons(lines: Seq<Seq<char>>, language: Language, o: ClassificationOptions) -> Seq<Seq<char>> {
    if language == Language::Html {
        h_reasons(lines, o)
    } else if language == Language::Css {
        css_reasons(lines, o)
    } else {
        Seq::empty()
    }
}

/// HTML and CSS text is classified line by line; another language is refused as
/// soon as there is a line.
pub open spec fn web_outcome(
    r: Result<BackendFileAnalysis, String>,
    path: Seq<char>,
    lines: Seq<Seq<char>>,
    bytes: u64,
    language: Language,
    category: FileCategory,
    o: ClassificationOptions,
) -> bool {
    match r {
        Ok(a) => {
            &&& a.warnings@.len() == 0
            &&& is_web(language) || lines.len() == 0
            &&& analysis_of(
                a,
                path,
                language,
                category,
                bytes,
                lines,
                web_effective_kinds(lines, language, o),
                web_reasons(lines, language, o),
            )
        },
        Err(e) => {
            &&& !is_web(language)
            &&& lines.len() > 0
            &&& e@ == "unsupported web language "@ + language_name(language)
        },
    }
}

/// Classifies the text of an HTML or CSS file. Another language is refused with
/// `unsupported web language <name>`, except for an empty text, which has no line
/// to refuse.
pub fn classify_file(
    path: &str,
    contents: &str,
    bytes: u64,
    language: Language,
    category: FileCategory,
    options: &ClassificationOptions,
) -> (r: Result<BackendFileAnalysis, String>)
    requires
        split_lines(contents@).len() <= u32::MAX,
    ensures
        web_outcome(r, path@, split_lines(contents@), bytes, language, category, *options),
{
    match language {
        Language::Html => Ok(classify_html_file(path, contents, bytes, category, options)),
        Language::Css => Ok(classify_css_file(path, contents, bytes, category, options)),
        _ => {
            let text = chars_of(contents);
            let lines = split_lines_exec(text.as_slice());
            if lines.len() > 0 {
                return Err(concat2("unsupported web language ", language.as_str()));
            }
            let kinds: Vec<LineKind> = Vec::new();
            let reasons: Vec<String> = Vec::new();
            proof {
                lemma_lines_match(lines@, contents@);
                assert(seqs_of(lines@) =~= Seq::<Seq<char>>::empty());
                assert(strings_of(reasons@) =~= Seq::<Seq<char>>::empty());
                assert(kinds@ =~= Seq::<LineKind>::empty());
            }
            Ok(assemble(path, language, category, bytes, &lines, &kinds, &reasons, Vec::new()))
        },
    }
}

} // verus!
