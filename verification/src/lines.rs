//! What every line classifier shares: line kinds, the policy that re-labels them,
//! and the assembly of a file's analysis from its classified lines.
use vstd::prelude::*;

use crate::metrics::{metrics_from, same_metrics, FileMetrics, LineBreakdown};
use crate::text::{split_lines, trim, trimmed_string};
use crate::types::{AnalysisWarning, ClassificationOptions, FileCategory, Language, LineExplanation};

verus! {

#[derive(Debug, Clone, Copy, PartialEq, Eq, Structural)]
pub enum LineKind {
    Blank,
    Code,
    Comment,
    Doc,
    Mixed,
}

pub open spec fn kind_name(k: LineKind) -> Seq<char> {
    match k {
        LineKind::Blank => "blank"@,
        LineKind::Code => "code"@,
        LineKind::Comment => "comment"@,
        LineKind::Doc => "doc"@,
        LineKind::Mixed => "mixed"@,
    }
}

pub fn line_kind_name(k: LineKind) -> (r: &'static str)
    ensures
        r@ == kind_name(k),
{
    match k {
        LineKind::Blank => "blank",
        LineKind::Code => "code",
        LineKind::Comment => "comment",
        LineKind::Doc => "doc",
        LineKind::Mixed => "mixed",
    }
}

/// The kind implied by what a line holds.
pub open spec fn kind_from_flags(has_code: bool, has_comment: bool, has_doc: bool) -> LineKind {
    if !has_code && !has_comment && !has_doc {
        LineKind::Blank
    } else if has_code && (has_comment || has_doc) {
        LineKind::Mixed
    } else if has_doc {
        LineKind::Doc
    } else if has_comment {
        LineKind::Comment
    } else {
        LineKind::Code
    }
}

pub fn kind_of_flags(has_code: bool, has_comment: bool, has_doc: bool) -> (k: LineKind)
    ensures
        k == kind_from_flags(has_code, has_comment, has_doc),
{
    if !has_code && !has_comment && !has_doc {
        LineKind::Blank
    } else if has_code && (has_comment || has_doc) {
        LineKind::Mixed
    } else if has_doc {
        LineKind::Doc
    } else if has_comment {
        LineKind::Comment
    } else {
        LineKind::Code
    }
}

/// Policy for classifiers with documentation comments: docs may count as code,
/// mixed lines may count as comments.
pub open spec fn spec_normalize_doc_mixed(k: LineKind, o: ClassificationOptions) -> LineKind {
    if k == LineKind::Doc && !o.count_doc_comments {
        LineKind::Code
    } else if k == LineKind::Mixed && !o.mixed_lines_as_code {
        LineKind::Comment
    } else {
        k
    }
}

/// Policy for classifiers without documentation comments.
pub open spec fn spec_normalize_mixed(k: LineKind, o: ClassificationOptions) -> LineKind {
    if k == LineKind::Mixed && !o.mixed_lines_as_code {
        LineKind::Comment
    } else {
        k
    }
}

pub fn normalize_doc_mixed(k: LineKind, o: &ClassificationOptions) -> (r: LineKind)
    ensures
        r == spec_normalize_doc_mixed(k, *o),
{
    if k == LineKind::Doc && !o.count_doc_comments {
        LineKind::Code
    } else if k == LineKind::Mixed && !o.mixed_lines_as_code {
        LineKind::Comment
    } else {
        k
    }
}

pub fn normalize_mixed(k: LineKind, o: &ClassificationOptions) -> (r: LineKind)
    ensures
        r == spec_normalize_mixed(k, *o),
{
    if k == LineKind::Mixed && !o.mixed_lines_as_code {
        LineKind::Comment
    } else {
        k
    }
}

pub open spec fn count_kind(ks: Seq<LineKind>, k: LineKind) -> nat
    decreases ks.len(),
{
    if ks.len() == 0 {
        0
    } else {
        count_kind(ks.drop_last(), k) + if ks.last() == k {
            1nat
        } else {
            0nat
        }
    }
}

pub proof fn lemma_count_kind_push(ks: Seq<LineKind>, x: LineKind, k: LineKind)
    ensures
        count_kind(ks.push(x), k) == count_kind(ks, k) + if x == k {
            1nat
        } else {
            0nat
        },
{
    assert(ks.push(x).drop_last() =~= ks);
}

pub proof fn lemma_count_kind_bound(ks: Seq<LineKind>, k: LineKind)
    ensures
        count_kind(ks, k) <= ks.len(),
    decreases ks.len(),
{
    if ks.len() > 0 {
        lemma_count_kind_bound(ks.drop_last(), k);
    }
}

/// The five kinds account for every line.
pub proof fn lemma_counts_partition(ks: Seq<LineKind>)
    ensures
        count_kind(ks, LineKind::Blank) + count_kind(ks, LineKind::Code) + count_kind(
            ks,
            LineKind::Comment,
        ) + count_kind(ks, LineKind::Doc) + count_kind(ks, LineKind::Mixed) == ks.len(),
    decreases ks.len(),
{
    if ks.len() > 0 {
        lemma_counts_partition(ks.drop_last());
    }
}

/// A kind that never occurs is counted zero times.
pub proof fn lemma_count_absent(ks: Seq<LineKind>, k: LineKind)
    requires
        forall|i: int| 0 <= i < ks.len() ==> ks[i] != k,
    ensures
        count_kind(ks, k) == 0,
    decreases ks.len(),
{
    if ks.len() > 0 {
        lemma_count_absent(ks.drop_last(), k);
    }
}

/// An explanation as plain values: line number, kind name, snippet, reason.
pub open spec fn explanation_view(e: LineExplanation) -> (int, Seq<char>, Seq<char>, Seq<char>) {
    (e.line_number as int, e.kind@, e.snippet@, e.reason@)
}

pub open spec fn explanation_views(es: Seq<LineExplanation>) -> Seq<(int, Seq<char>, Seq<char>, Seq<char>)> {
    es.map_values(|e: LineExplanation| explanation_view(e))
}

/// One explanation per non-blank line, in line order: its 1-based number, its kind,
/// the line trimmed, and the reason given for it.
pub open spec fn explanations_of(
    lines: Seq<Seq<char>>,
    kinds: Seq<LineKind>,
    reasons: Seq<Seq<char>>,
) -> Seq<(int, Seq<char>, Seq<char>, Seq<char>)>
    decreases kinds.len(),
{
    if kinds.len() == 0 {
        Seq::empty()
    } else {
        let i = kinds.len() - 1;
        let rest = explanations_of(lines, kinds.drop_last(), reasons);
        if kinds[i] == LineKind::Blank {
            rest
        } else {
            rest.push((i + 1, kind_name(kinds[i]), trim(lines[i]), reasons[i]))
        }
    }
}

/// The outcome of classifying one file.
#[derive(Debug, Clone)]
pub struct BackendFileAnalysis {
    pub metrics: FileMetrics,
    pub line_explanations: Vec<LineExplanation>,
    pub warnings: Vec<AnalysisWarning>,
}

pub open spec fn seqs_of(v: Seq<Vec<char>>) -> Seq<Seq<char>> {
    v.map_values(|l: Vec<char>| l@)
}

pub open spec fn strings_of(v: Seq<String>) -> Seq<Seq<char>> {
    v.map_values(|s: String| s@)
}

/// The breakdown counts each kind of the effective kinds.
pub open spec fn breakdown_of(b: LineBreakdown, kinds: Seq<LineKind>) -> bool {
    &&& b.total == kinds.len()
    &&& b.blank == count_kind(kinds, LineKind::Blank)
    &&& b.code == count_kind(kinds, LineKind::Code)
    &&& b.comment == count_kind(kinds, LineKind::Comment)
    &&& b.doc == count_kind(kinds, LineKind::Doc)
    &&& b.mixed == count_kind(kinds, LineKind::Mixed)
    &&& b.parse_errors == 0
}

/// `a` is the analysis of a file whose lines have the given effective kinds and reasons.
pub open spec fn analysis_of(
    a: BackendFileAnalysis,
    path: Seq<char>,
    language: Language,
    category: FileCategory,
    bytes: u64,
    lines: Seq<Seq<char>>,
    kinds: Seq<LineKind>,
    reasons: Seq<Seq<char>>,
) -> bool {
    &&& exists|b: LineBreakdown|
        breakdown_of(b, kinds) && #[trigger] metrics_from(
            a.metrics,
            path,
            language,
            category,
            bytes,
            b,
        )
    &&& explanation_views(a.line_explanations@) == explanations_of(lines, kinds, reasons)
}

/// Counts, for each kind, the lines of that effective kind.
pub fn count_lines(kinds: &Vec<LineKind>) -> (b: LineBreakdown)
    requires
        kinds.len() <= u32::MAX,
    ensures
        breakdown_of(b, kinds@),
{
    let mut b = LineBreakdown::default();
    let mut i: usize = 0;
    while i < kinds.len()
        invariant
            i <= kinds.len() <= u32::MAX,
            breakdown_of(b, kinds@.take(i as int)),
        decreases kinds.len() - i,
    {
        let k = kinds[i];
        proof {
            assert(kinds@.take(i + 1) =~= kinds@.take(i as int).push(k));
            lemma_count_kind_push(kinds@.take(i as int), k, LineKind::Blank);
            lemma_count_kind_push(kinds@.take(i as int), k, LineKind::Code);
            lemma_count_kind_push(kinds@.take(i as int), k, LineKind::Comment);
            lemma_count_kind_push(kinds@.take(i as int), k, LineKind::Doc);
            lemma_count_kind_push(kinds@.take(i as int), k, LineKind::Mixed);
            lemma_count_kind_bound(kinds@.take(i as int), LineKind::Blank);
            lemma_count_kind_bound(kinds@.take(i as int), LineKind::Code);
            lemma_count_kind_bound(kinds@.take(i as int), LineKind::Comment);
            lemma_count_kind_bound(kinds@.take(i as int), LineKind::Doc);
            lemma_count_kind_bound(kinds@.take(i as int), LineKind::Mixed);
        }
        match k {
            LineKind::Blank => b.blank = b.blank + 1,
            LineKind::Code => b.code = b.code + 1,
            LineKind::Comment => b.comment = b.comment + 1,
            LineKind::Doc => b.doc = b.doc + 1,
            LineKind::Mixed => b.mixed = b.mixed + 1,
        }
        b.total = b.total + 1;
        i += 1;
    }
    assert(kinds@.take(kinds.len() as int) =~= kinds@);
    b
}

/// One explanation for every non-blank line.
pub fn explain_lines(lines: &Vec<Vec<char>>, kinds: &Vec<LineKind>, reasons: &Vec<String>) -> (r:
    Vec<LineExplanation>)
    requires
        lines.len() == kinds.len(),
        reasons.len() == kinds.len(),
        kinds.len() <= u32::MAX,
    ensures
        explanation_views(r@) == explanations_of(seqs_of(lines@), kinds@, strings_of(reasons@)),
{
    let mut out: Vec<LineExplanation> = Vec::new();
    let mut i: usize = 0;
    while i < kinds.len()
        invariant
            i <= kinds.len() <= u32::MAX,
            lines.len() == kinds.len(),
            reasons.len() == kinds.len(),
            explanation_views(out@) == explanations_of(
                seqs_of(lines@),
                kinds@.take(i as int),
                strings_of(reasons@),
            ),
        decreases kinds.len() - i,
    {
        let k = kinds[i];
        let ghost before = out@;
        proof {
            assert(kinds@.take(i + 1).drop_last() =~= kinds@.take(i as int));
        }
        if k != LineKind::Blank {
            let e = LineExplanation {
                line_number: (i + 1) as u32,
                kind: line_kind_name(k).to_owned(),
                snippet: trimmed_string(lines[i].as_slice()),
                reason: reasons[i].clone(),
            };
            out.push(e);
            proof {
                assert(explanation_views(out@) =~= explanation_views(before).push(
                    explanation_view(e),
                ));
            }
        }
        i += 1;
    }
    assert(kinds@.take(kinds.len() as int) =~= kinds@);
    out
}

/// Puts together the analysis of a file from its lines, their effective kinds and reasons.
pub fn assemble(
    path: &str,
    language: Language,
    category: FileCategory,
    bytes: u64,
    lines: &Vec<Vec<char>>,
    kinds: &Vec<LineKind>,
    reasons: &Vec<String>,
    warnings: Vec<AnalysisWarning>,
) -> (a: BackendFileAnalysis)
    requires
        lines.len() == kinds.len(),
        reasons.len() == kinds.len(),
        kinds.len() <= u32::MAX,
    ensures
        analysis_of(
            a,
            path@,
            language,
            category,
            bytes,
            seqs_of(lines@),
            kinds@,
            strings_of(reasons@),
        ),
        a.warnings@ == warnings@,
{
    let b = count_lines(kinds);
    let explanations = explain_lines(lines, kinds, reasons);
    let metrics = FileMetrics::from_line_breakdown(path.to_owned(), language, category, bytes, b);
    BackendFileAnalysis { metrics, line_explanations: explanations, warnings }
}

/// `split_lines` of a text, element by element.
pub open spec fn lines_match(v: Seq<Vec<char>>, text: Seq<char>) -> bool {
    seqs_of(v) == split_lines(text)
}

pub proof fn lemma_lines_match(v: Seq<Vec<char>>, text: Seq<char>)
    requires
        v.len() == split_lines(text).len(),
        forall|i: int| 0 <= i < v.len() ==> (#[trigger] v[i])@ == split_lines(text)[i],
    ensures
        lines_match(v, text),
{
    assert(seqs_of(v) =~= split_lines(text));
}

/// The kind counts of any file's analysis add up to its line count.
pub proof fn lemma_analysis_counts_add_up(
    a: BackendFileAnalysis,
    path: Seq<char>,
    language: Language,
    category: FileCategory,
    bytes: u64,
    lines: Seq<Seq<char>>,
    kinds: Seq<LineKind>,
    reasons: Seq<Seq<char>>,
)
    requires
        analysis_of(a, path, language, category, bytes, lines, kinds, reasons),
    ensures
        a.metrics.total_lines == a.metrics.blank_lines + a.metrics.code_lines + a.metrics.comment_lines
            + a.metrics.doc_lines + a.metrics.mixed_lines,
{
    lemma_counts_partition(kinds);
}

/// One explanation for each line that is not blank.
pub proof fn lemma_explanations_skip_blank(lines: Seq<Seq<char>>, kinds: Seq<LineKind>, reasons: Seq<Seq<char>>)
    ensures
        explanations_of(lines, kinds, reasons).len() + count_kind(kinds, LineKind::Blank) == kinds.len(),
    decreases kinds.len(),
{
    if kinds.len() > 0 {
        lemma_explanations_skip_blank(lines, kinds.drop_last(), reasons);
    }
}

/// With mixed lines not counted as code, the policies never leave a line mixed;
/// with doc comments not counted, they never leave a line documentation.
pub proof fn lemma_normalize_respects_toggles(k: LineKind, o: ClassificationOptions)
    ensures
        !o.mixed_lines_as_code ==> spec_normalize_doc_mixed(k, o) != LineKind::Mixed && spec_normalize_mixed(k, o)
            != LineKind::Mixed,
        !o.count_doc_comments ==> spec_normalize_doc_mixed(k, o) != LineKind::Doc,
        (k == LineKind::Blank) == (spec_normalize_doc_mixed(k, o) == LineKind::Blank),
        (k == LineKind::Blank) == (spec_normalize_mixed(k, o) == LineKind::Blank),
{
}

/// Metrics built from the same kinds of the same lines are the same.
pub proof fn lemma_breakdown_metrics_unique(
    m1: FileMetrics,
    m2: FileMetrics,
    path: Seq<char>,
    language: Language,
    category: FileCategory,
    bytes: u64,
    kinds: Seq<LineKind>,
)
    requires
        exists|b: LineBreakdown| breakdown_of(b, kinds) && #[trigger] metrics_from(m1, path, language, category, bytes, b),
        exists|b: LineBreakdown| breakdown_of(b, kinds) && #[trigger] metrics_from(m2, path, language, category, bytes, b),
    ensures
        same_metrics(m1, m2),
{
    let b1 = choose|b: LineBreakdown| breakdown_of(b, kinds) && #[trigger] metrics_from(m1, path, language, category, bytes, b);
    let b2 = choose|b: LineBreakdown| breakdown_of(b, kinds) && #[trigger] metrics_from(m2, path, language, category, bytes, b);
    assert(b1 == b2);
}

} // verus!
