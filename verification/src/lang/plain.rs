//! Markdown and configuration files, read line by line without a grammar: every
//! non-blank Markdown line is documentation; a configuration line is a comment when
//! it starts with `#`, `;` or `//`, and an entry (code) otherwise. Unlike the
//! source classifiers, blank lines are explained too.
use vstd::prelude::*;

use crate::lines::{
    breakdown_of, count_lines, explanation_view, explanation_views, kind_name, line_kind_name,
    BackendFileAnalysis, LineKind,
};
use crate::metrics::{metrics_from, FileMetrics, LineBreakdown};
use crate::text::{
    chars_of, has_prefix, split_lines, split_lines_exec, starts_with_str, trim, trimmed_string,
};
use crate::types::{FileCategory, Language, LineExplanation};

verus! {

/// How a plain-text file is read.
#[derive(Debug, Clone, Copy, PartialEq, Eq, Structural)]
pub enum TextMode {
    Markdown,
    Config,
}

/// A trimmed configuration line that is a comment.
pub open spec fn is_config_comment(trimmed: Seq<char>) -> bool {
    has_prefix(trimmed, "#"@) || has_prefix(trimmed, ";"@) || has_prefix(trimmed, "//"@)
}

pub fn config_comment(trimmed: &[char]) -> (r: bool)
    ensures
        r == is_config_comment(trimmed@),
{
    starts_with_str(trimmed, "#") || starts_with_str(trimmed, ";") || starts_with_str(trimmed, "//")
}

pub open spec fn text_kind(line: Seq<char>, mode: TextMode) -> LineKind {
    if trim(line).len() == 0 {
        LineKind::Blank
    } else {
        match mode {
            TextMode::Markdown => LineKind::Doc,
            TextMode::Config => if is_config_comment(trim(line)) {
                LineKind::Comment
            } else {
                LineKind::Code
            },
        }
    }
}

pub open spec fn text_reason(k: LineKind) -> Seq<char> {
    match k {
        LineKind::Blank => "line contained only whitespace"@,
        LineKind::Doc => "markdown content counted as documentation"@,
        LineKind::Comment => "config comment line counted as comment"@,
        _ => "config entry counted as code"@,
    }
}

pub open spec fn text_kinds(lines: Seq<Seq<char>>, mode: TextMode) -> Seq<LineKind> {
    lines.map_values(|l: Seq<char>| text_kind(l, mode))
}

/// One explanation for every line, blank lines included.
pub open spec fn text_explanations(lines: Seq<Seq<char>>, mode: TextMode) -> Seq<
    (int, Seq<char>, Seq<char>, Seq<char>),
> {
    Seq::new(
        lines.len(),
        |i: int|
            (
                i + 1,
                kind_name(text_kind(lines[i], mode)),
                trim(lines[i]),
                text_reason(text_kind(lines[i], mode)),
            ),
    )
}

/// The analysis of a plain-text file with the given lines.
pub open spec fn text_analysis_of(
    a: BackendFileAnalysis,
    path: Seq<char>,
    language: Language,
    category: FileCategory,
    bytes: u64,
    lines: Seq<Seq<char>>,
    mode: TextMode,
) -> bool {
    &&& exists|b: LineBreakdown|
        breakdown_of(b, text_kinds(lines, mode)) && #[trigger] metrics_from(
            a.metrics,
            path,
            language,
            category,
            bytes,
            b,
        )
    &&& explanation_views(a.line_explanations@) == text_explanations(lines, mode)
    &&& a.warnings@.len() == 0
}

pub fn text_reason_exec(k: LineKind) -> (r: &'static str)
    ensures
        r@ == text_reason(k),
{
    match k {
        LineKind::Blank => "line contained only whitespace",
        LineKind::Doc => "markdown content counted as documentation",
        LineKind::Comment => "config comment line counted as comment",
        _ => "config entry counted as code",
    }
}

/// Classifies the text of a Markdown or configuration file.
pub fn classify_text(
    path: &str,
    contents: &str,
    bytes: u64,
    language: Language,
    mode: TextMode,
    category: FileCategory,
) -> (a: BackendFileAnalysis)
    requires
        split_lines(contents@).len() <= u32::MAX,
    ensures
        text_analysis_of(a, path@, language, category, bytes, split_lines(contents@), mode),
{
    let text = chars_of(contents);
    let lines = split_lines_exec(text.as_slice());
    let ghost ls = split_lines(contents@);
    let mut kinds: Vec<LineKind> = Vec::new();
    let mut explanations: Vec<LineExplanation> = Vec::new();
    let mut i: usize = 0;
    while i < lines.len()
        invariant
            i <= lines.len() <= u32::MAX,
            lines.len() == ls.len(),
            forall|k: int| 0 <= k < lines.len() ==> (#[trigger] lines@[k])@ == ls[k],
            kinds@ == text_kinds(ls, mode).take(i as int),
            explanation_views(explanations@) == text_explanations(ls, mode).take(i as int),
        decreases lines.len() - i,
    {
        let line = lines[i].as_slice();
        let trimmed = trimmed_string(line);
        let tchars = chars_of(trimmed.as_str());
        let kind = if tchars.len() == 0 {
            LineKind::Blank
        } else {
            match mode {
                TextMode::Markdown => LineKind::Doc,
                TextMode::Config => if config_comment(tchars.as_slice()) {
                    LineKind::Comment
                } else {
                    LineKind::Code
                },
            }
        };
        let e = LineExplanation {
            line_number: (i + 1) as u32,
            kind: line_kind_name(kind).to_owned(),
            snippet: trimmed,
            reason: text_reason_exec(kind).to_owned(),
        };
        proof {
            assert(lines@[i as int]@ == ls[i as int]);
            assert(kind == text_kind(ls[i as int], mode));
        }
        let ghost before = explanations@;
        kinds.push(kind);
        explanations.push(e);
        proof {
            assert(kinds@ =~= text_kinds(ls, mode).take(i + 1));
            assert(explanation_views(explanations@) =~= explanation_views(before).push(
                explanation_view(e),
            ));
            assert(explanation_views(explanations@) =~= text_explanations(ls, mode).take(i + 1));
        }
        i += 1;
    }
    proof {
        assert(kinds@ =~= text_kinds(ls, mode));
        assert(explanation_views(explanations@) =~= text_explanations(ls, mode));
    }
    let b = count_lines(&kinds);
    let metrics = FileMetrics::from_line_breakdown(path.to_owned(), language, category, bytes, b);
    BackendFileAnalysis { metrics, line_explanations: explanations, warnings: Vec::new() }
}

} // verus!
