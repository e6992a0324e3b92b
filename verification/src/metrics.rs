//! Per-file line metrics and their aggregation.
use vstd::prelude::*;

use crate::types::{AnalysisWarning, FileCategory, Language};

verus! {

/// How the lines of one file split up.
#[derive(Debug, Clone, Copy, PartialEq, Eq, Structural)]
pub struct LineBreakdown {
    pub total: u32,
    pub blank: u32,
    pub code: u32,
    pub comment: u32,
    pub doc: u32,
    pub mixed: u32,
    pub parse_errors: u32,
}

impl Default for LineBreakdown {
    fn default() -> (b: Self)
        ensures
            b.total == 0 && b.blank == 0 && b.code == 0 && b.comment == 0 && b.doc == 0 && b.mixed
                == 0 && b.parse_errors == 0,
    {
        LineBreakdown { total: 0, blank: 0, code: 0, comment: 0, doc: 0, mixed: 0, parse_errors: 0 }
    }
}

/// The metrics of one analysed file.
#[derive(Debug, Clone)]
pub struct FileMetrics {
    pub path: String,
    pub language: Language,
    pub category: FileCategory,
    pub bytes: u64,
    pub total_lines: u32,
    pub blank_lines: u32,
    pub code_lines: u32,
    pub comment_lines: u32,
    pub doc_lines: u32,
    pub mixed_lines: u32,
    pub parse_errors: u32,
    pub is_generated: bool,
    pub is_vendor: bool,
}

/// The metrics fields agree with a breakdown and a category.
pub open spec fn metrics_from(
    m: FileMetrics,
    path: Seq<char>,
    language: Language,
    category: FileCategory,
    bytes: u64,
    lines: LineBreakdown,
) -> bool {
    &&& m.path@ == path
    &&& m.language == language
    &&& m.category == category
    &&& m.bytes == bytes
    &&& m.total_lines == lines.total
    &&& m.blank_lines == lines.blank
    &&& m.code_lines == lines.code
    &&& m.comment_lines == lines.comment
    &&& m.doc_lines == lines.doc
    &&& m.mixed_lines == lines.mixed
    &&& m.parse_errors == lines.parse_errors
    &&& m.is_generated == (category == FileCategory::Generated)
    &&& m.is_vendor == (category == FileCategory::Vendor)
}

/// Source lines: code lines plus mixed lines.
pub open spec fn spec_sloc(m: FileMetrics) -> int {
    m.code_lines + m.mixed_lines
}

impl FileMetrics {
    pub fn from_line_breakdown(
        path: String,
        language: Language,
        category: FileCategory,
        bytes: u64,
        lines: LineBreakdown,
    ) -> (m: Self)
        ensures
            metrics_from(m, path@, language, category, bytes, lines),
    {
        FileMetrics {
            path,
            language,
            category,
            bytes,
            total_lines: lines.total,
            blank_lines: lines.blank,
            code_lines: lines.code,
            comment_lines: lines.comment,
            doc_lines: lines.doc,
            mixed_lines: lines.mixed,
            parse_errors: lines.parse_errors,
            is_generated: category == FileCategory::Generated,
            is_vendor: category == FileCategory::Vendor,
        }
    }

    /// Metrics that know only the physical line counts.
    pub fn from_physical_snapshot(
        path: String,
        language: Language,
        category: FileCategory,
        bytes: u64,
        total_lines: u32,
        blank_lines: u32,
    ) -> (m: Self)
        ensures
            metrics_from(
                m,
                path@,
                language,
                category,
                bytes,
                LineBreakdown {
                    total: total_lines,
                    blank: blank_lines,
                    code: 0,
                    comment: 0,
                    doc: 0,
                    mixed: 0,
                    parse_errors: 0,
                },
            ),
    {
        let mut lines = LineBreakdown::default();
        lines.total = total_lines;
        lines.blank = blank_lines;
        Self::from_line_breakdown(path, language, category, bytes, lines)
    }

    pub fn sloc(&self) -> (r: u32)
        requires
            spec_sloc(*self) <= u32::MAX,
        ensures
            r == spec_sloc(*self),
    {
        self.code_lines + self.mixed_lines
    }
}

/// Totals over a set of files.
#[derive(Debug, Clone, Copy, PartialEq, Eq, Structural)]
pub struct MetricsSummary {
    pub files: usize,
    pub lines: u64,
    pub code: u64,
    pub mixed: u64,
    pub comment: u64,
    pub doc: u64,
    pub blank: u64,
    pub sloc: u64,
    pub bytes: u64,
    pub parse_errors: u64,
}

/// The same totals as mathematical integers.
#[verifier::ext_equal]
pub struct Totals {
    pub files: int,
    pub lines: int,
    pub code: int,
    pub mixed: int,
    pub comment: int,
    pub doc: int,
    pub blank: int,
    pub sloc: int,
    pub bytes: int,
    pub parse_errors: int,
}

pub open spec fn zero_totals() -> Totals {
    Totals {
        files: 0,
        lines: 0,
        code: 0,
        mixed: 0,
        comment: 0,
        doc: 0,
        blank: 0,
        sloc: 0,
        bytes: 0,
        parse_errors: 0,
    }
}

pub open spec fn add_totals(a: Totals, b: Totals) -> Totals {
    Totals {
        files: a.files + b.files,
        lines: a.lines + b.lines,
        code: a.code + b.code,
        mixed: a.mixed + b.mixed,
        comment: a.comment + b.comment,
        doc: a.doc + b.doc,
        blank: a.blank + b.blank,
        sloc: a.sloc + b.sloc,
        bytes: a.bytes + b.bytes,
        parse_errors: a.parse_errors + b.parse_errors,
    }
}

/// What one file contributes to a summary.
pub open spec fn file_totals(f: FileMetrics) -> Totals {
    Totals {
        files: 1,
        lines: f.total_lines as int,
        code: f.code_lines as int,
        mixed: f.mixed_lines as int,
        comment: f.comment_lines as int,
        doc: f.doc_lines as int,
        blank: f.blank_lines as int,
        sloc: spec_sloc(f),
        bytes: f.bytes as int,
        parse_errors: f.parse_errors as int,
    }
}

/// The totals of a sequence of files.
pub open spec fn totals_of(files: Seq<FileMetrics>) -> Totals
    decreases files.len(),
{
    if files.len() == 0 {
        zero_totals()
    } else {
        add_totals(totals_of(files.drop_last()), file_totals(files.last()))
    }
}

pub open spec fn summary_totals(s: MetricsSummary) -> Totals {
    Totals {
        files: s.files as int,
        lines: s.lines as int,
        code: s.code as int,
        mixed: s.mixed as int,
        comment: s.comment as int,
        doc: s.doc as int,
        blank: s.blank as int,
        sloc: s.sloc as int,
        bytes: s.bytes as int,
        parse_errors: s.parse_errors as int,
    }
}

/// Every total of `t` fits the summary's field types.
pub open spec fn totals_fit(t: Totals) -> bool {
    &&& 0 <= t.files <= usize::MAX
    &&& 0 <= t.lines <= u64::MAX
    &&& 0 <= t.code <= u64::MAX
    &&& 0 <= t.mixed <= u64::MAX
    &&& 0 <= t.comment <= u64::MAX
    &&& 0 <= t.doc <= u64::MAX
    &&& 0 <= t.blank <= u64::MAX
    &&& 0 <= t.sloc <= u64::MAX
    &&& 0 <= t.bytes <= u64::MAX
    &&& 0 <= t.parse_errors <= u64::MAX
}

impl Default for MetricsSummary {
    fn default() -> (s: Self)
        ensures
            summary_totals(s) == zero_totals(),
    {
        MetricsSummary {
            files: 0,
            lines: 0,
            code: 0,
            mixed: 0,
            comment: 0,
            doc: 0,
            blank: 0,
            sloc: 0,
            bytes: 0,
            parse_errors: 0,
        }
    }
}

impl MetricsSummary {
    pub fn add_file(&mut self, file: &FileMetrics)
        requires
            totals_fit(add_totals(summary_totals(*old(self)), file_totals(*file))),
        ensures
            summary_totals(*final(self)) == add_totals(summary_totals(*old(self)), file_totals(*file)),
    {
        self.files = self.files + 1;
        self.lines = self.lines + file.total_lines as u64;
        self.code = self.code + file.code_lines as u64;
        self.mixed = self.mixed + file.mixed_lines as u64;
        self.comment = self.comment + file.comment_lines as u64;
        self.doc = self.doc + file.doc_lines as u64;
        self.blank = self.blank + file.blank_lines as u64;
        self.sloc = self.sloc + (file.code_lines as u64 + file.mixed_lines as u64);
        self.bytes = self.bytes + file.bytes;
        self.parse_errors = self.parse_errors + file.parse_errors as u64;
    }

    pub fn from_files(files: &[FileMetrics]) -> (s: Self)
        requires
            totals_fit(totals_of(files@)),
        ensures
            summary_totals(s) == totals_of(files@),
    {
        let mut summary = MetricsSummary::default();
        let mut i: usize = 0;
        while i < files.len()
            invariant
                i <= files.len(),
                totals_fit(totals_of(files@)),
                summary_totals(summary) == totals_of(files@.take(i as int)),
            decreases files.len() - i,
        {
            proof {
                assert(files@.take(i + 1).drop_last() =~= files@.take(i as int));
                lemma_totals_prefix_fit(files@, i + 1);
            }
            summary.add_file(&files[i]);
            i += 1;
        }
        assert(files@.take(files.len() as int) =~= files@);
        summary
    }
}

/// Totals only grow along a sequence of files.
pub proof fn lemma_totals_monotone(files: Seq<FileMetrics>)
    ensures
        0 <= totals_of(files).files,
        0 <= totals_of(files).lines,
        0 <= totals_of(files).code,
        0 <= totals_of(files).mixed,
        0 <= totals_of(files).comment,
        0 <= totals_of(files).doc,
        0 <= totals_of(files).blank,
        0 <= totals_of(files).sloc,
        0 <= totals_of(files).bytes,
        0 <= totals_of(files).parse_errors,
    decreases files.len(),
{
    if files.len() > 0 {
        lemma_totals_monotone(files.drop_last());
    }
}

/// Summing two runs of files separately and adding gives the totals of both together.
pub proof fn lemma_totals_concat(a: Seq<FileMetrics>, b: Seq<FileMetrics>)
    ensures
        totals_of(a + b) == add_totals(totals_of(a), totals_of(b)),
    decreases b.len(),
{
    if b.len() == 0 {
        assert(a + b =~= a);
        assert(add_totals(totals_of(a), zero_totals()) =~= totals_of(a));
    } else {
        assert((a + b).drop_last() =~= a + b.drop_last());
        lemma_totals_concat(a, b.drop_last());
        assert((a + b).last() == b.last());
        assert(totals_of(a + b) =~= add_totals(totals_of(a), totals_of(b)));
    }
}

/// A prefix of files has totals no larger than the whole.
pub proof fn lemma_totals_prefix_fit(files: Seq<FileMetrics>, i: int)
    requires
        0 <= i <= files.len(),
        totals_fit(totals_of(files)),
    ensures
        totals_fit(totals_of(files.take(i))),
{
    assert(files =~= files.take(i) + files.skip(i));
    lemma_totals_concat(files.take(i), files.skip(i));
    lemma_totals_monotone(files.take(i));
    lemma_totals_monotone(files.skip(i));
}

/// Two metrics agree on every field (the path by its text).
pub open spec fn same_metrics(a: FileMetrics, b: FileMetrics) -> bool {
    &&& a.path@ == b.path@
    &&& a.language == b.language
    &&& a.category == b.category
    &&& a.bytes == b.bytes
    &&& a.total_lines == b.total_lines
    &&& a.blank_lines == b.blank_lines
    &&& a.code_lines == b.code_lines
    &&& a.comment_lines == b.comment_lines
    &&& a.doc_lines == b.doc_lines
    &&& a.mixed_lines == b.mixed_lines
    &&& a.parse_errors == b.parse_errors
    &&& a.is_generated == b.is_generated
    &&& a.is_vendor == b.is_vendor
}

/// The totals of one language inside a scan.
#[derive(Debug, Clone, Copy)]
pub struct LanguageSummary {
    pub language: Language,
    pub summary: MetricsSummary,
}

/// The result of scanning a tree.
#[derive(Debug, Clone)]
pub struct ScanReport {
    pub summary: MetricsSummary,
    pub files: Vec<FileMetrics>,
    /// One entry per language seen, in language order.
    pub by_language: Vec<LanguageSummary>,
    pub warnings: Vec<AnalysisWarning>,
}

} // verus!
