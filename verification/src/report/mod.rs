//! Reports: totals grouped by language, category, directory or file, the largest
//! files and directories, and the text tables and listings the commands print.
pub mod summary;
pub mod top;
pub mod table;
pub mod listing;

use vstd::prelude::*;

use crate::metrics::{spec_sloc, summary_totals, totals_fit, totals_of, FileMetrics, MetricsSummary, ScanReport, Totals};
use crate::report::table::{
    block_titles, blocks_text, render, render_pieces, report_blocks, report_text, shown_titles, summary_section,
};
use crate::text::{is_ws, trim_end};
use crate::types::{FileCategory, Language};

verus! {

/// What a table or JSON section groups files by.
#[derive(Debug, Clone, Copy, PartialEq, Eq, Structural)]
pub enum ScanGroupBy {
    Language,
    Category,
    Dir,
    File,
}

pub open spec fn group_by_name(g: ScanGroupBy) -> Seq<char> {
    match g {
        ScanGroupBy::Language => "language"@,
        ScanGroupBy::Category => "category"@,
        ScanGroupBy::Dir => "dir"@,
        ScanGroupBy::File => "file"@,
    }
}

impl ScanGroupBy {
    pub fn as_str(self) -> (r: &'static str)
        ensures
            r@ == group_by_name(self),
    {
        match self {
            ScanGroupBy::Language => "language",
            ScanGroupBy::Category => "category",
            ScanGroupBy::Dir => "dir",
            ScanGroupBy::File => "file",
        }
    }
}

/// How a scan report is rendered.
#[derive(Debug, Clone, PartialEq, Eq)]
pub struct ScanRenderOptions {
    pub path: String,
    pub format: String,
    pub group_by: Vec<ScanGroupBy>,
    pub top_files: Option<usize>,
    pub top_dirs: Option<usize>,
    pub respect_gitignore: bool,
    pub include_generated: bool,
    pub include_vendor: bool,
    pub include_tests: bool,
}

impl Default for ScanRenderOptions {
    fn default() -> (o: Self)
        ensures
            o.path@ == "."@,
            o.format@ == "table"@,
            o.group_by@ == seq![ScanGroupBy::Language],
            o.top_files == Some(10usize),
            o.top_dirs == Some(10usize),
            o.respect_gitignore,
            !o.include_generated,
            !o.include_vendor,
            o.include_tests,
    {
        let mut group_by: Vec<ScanGroupBy> = Vec::new();
        group_by.push(ScanGroupBy::Language);
        ScanRenderOptions {
            path: ".".to_owned(),
            format: "table".to_owned(),
            group_by,
            top_files: Some(10),
            top_dirs: Some(10),
            respect_gitignore: true,
            include_generated: false,
            include_vendor: false,
            include_tests: true,
        }
    }
}

/// The totals of one group.
#[derive(Debug, Clone, PartialEq, Eq)]
pub struct GroupSummary {
    pub group_by: String,
    pub key: String,
    pub files: usize,
    pub lines: u64,
    pub code: u64,
    pub mixed: u64,
    pub comment: u64,
    pub doc: u64,
    pub blank: u64,
    pub sloc: u64,
    pub bytes: u64,
    pub parse_errors: u64,
}

/// A group's totals as mathematical integers.
pub open spec fn group_totals(g: GroupSummary) -> Totals {
    Totals {
        files: g.files as int,
        lines: g.lines as int,
        code: g.code as int,
        mixed: g.mixed as int,
        comment: g.comment as int,
        doc: g.doc as int,
        blank: g.blank as int,
        sloc: g.sloc as int,
        bytes: g.bytes as int,
        parse_errors: g.parse_errors as int,
    }
}

impl GroupSummary {
    pub fn from_metrics(group_by: ScanGroupBy, key: String, summary: &MetricsSummary) -> (g: Self)
        ensures
            g.group_by@ == group_by_name(group_by),
            g.key == key,
            group_totals(g) == summary_totals(*summary),
    {
        GroupSummary {
            group_by: group_by.as_str().to_owned(),
            key,
            files: summary.files,
            lines: summary.lines,
            code: summary.code,
            mixed: summary.mixed,
            comment: summary.comment,
            doc: summary.doc,
            blank: summary.blank,
            sloc: summary.sloc,
            bytes: summary.bytes,
            parse_errors: summary.parse_errors,
        }
    }
}

/// One file among the largest, with its counts widened.
#[derive(Debug, Clone, PartialEq, Eq)]
pub struct TopFileEntry {
    pub path: String,
    pub language: Language,
    pub category: FileCategory,
    pub files: usize,
    pub lines: u64,
    pub code: u64,
    pub mixed: u64,
    pub comment: u64,
    pub doc: u64,
    pub blank: u64,
    pub sloc: u64,
    pub bytes: u64,
    pub parse_errors: u64,
}

/// The entry of one file.
pub open spec fn entry_of(e: TopFileEntry, f: FileMetrics) -> bool {
    &&& e.path@ == f.path@
    &&& e.language == f.language
    &&& e.category == f.category
    &&& e.files == 1
    &&& e.lines == f.total_lines
    &&& e.code == f.code_lines
    &&& e.mixed == f.mixed_lines
    &&& e.comment == f.comment_lines
    &&& e.doc == f.doc_lines
    &&& e.blank == f.blank_lines
    &&& e.sloc == spec_sloc(f)
    &&& e.bytes == f.bytes
    &&& e.parse_errors == f.parse_errors
}

impl TopFileEntry {
    pub fn from_file(file: &FileMetrics) -> (e: Self)
        ensures
            entry_of(e, *file),
    {
        TopFileEntry {
            path: file.path.clone(),
            language: file.language,
            category: file.category,
            files: 1,
            lines: file.total_lines as u64,
            code: file.code_lines as u64,
            mixed: file.mixed_lines as u64,
            comment: file.comment_lines as u64,
            doc: file.doc_lines as u64,
            blank: file.blank_lines as u64,
            sloc: file.code_lines as u64 + file.mixed_lines as u64,
            bytes: file.bytes,
            parse_errors: file.parse_errors as u64,
        }
    }
}

/// The text a scan report renders to under the given options: the sections that
/// `render_pieces` gives, in order, with trailing whitespace trimmed.
pub open spec fn rendered_table(report: ScanReport, options: ScanRenderOptions, use_color: bool, r: Seq<char>) -> bool {
    exists|pieces: (Seq<GroupSummary>, Seq<Seq<GroupSummary>>, Seq<TopFileEntry>, Seq<GroupSummary>)|
        #[trigger] render_pieces(report, options, pieces) && r == trim_end(
            report_text(report, options, use_color, pieces.0, pieces.1, pieces.2, pieces.3),
        )
}

/// The options a plain table report uses.
pub open spec fn is_default_render(o: ScanRenderOptions) -> bool {
    &&& o.path@ == "."@
    &&& o.format@ == "table"@
    &&& o.group_by@ == seq![ScanGroupBy::Language]
    &&& o.top_files == Some(10usize)
    &&& o.top_dirs == Some(10usize)
    &&& o.respect_gitignore
    &&& !o.include_generated
    &&& !o.include_vendor
    &&& o.include_tests
}

/// Renders a scan report as text tables; `use_color` is whether headings and
/// header rows carry terminal colours.
pub fn render_table_with_options(report: &ScanReport, options: &ScanRenderOptions, use_color: bool) -> (r: String)
    requires
        totals_fit(totals_of(report.files@)),
    ensures
        rendered_table(*report, *options, use_color, r@),
        r@.len() == 0 || !is_ws(r@.last()),
        exists|pieces: (Seq<GroupSummary>, Seq<Seq<GroupSummary>>, Seq<TopFileEntry>, Seq<GroupSummary>)|
            #[trigger] render_pieces(*report, *options, pieces) && r@ == trim_end(
                summary_section(*report, use_color) + blocks_text(report_blocks(*report, *options, use_color, pieces), use_color),
            ) && seq!["Summary"@] + block_titles(report_blocks(*report, *options, use_color, pieces)) == shown_titles(
                *report,
                *options,
            ),
{
    render(report, options, use_color)
}

/// Renders a scan report as text tables with the default options.
pub fn render_table(report: &ScanReport, use_color: bool) -> (r: String)
    requires
        totals_fit(totals_of(report.files@)),
    ensures
        exists|o: ScanRenderOptions| is_default_render(o) && #[trigger] rendered_table(*report, o, use_color, r@),
{
    let options = ScanRenderOptions::default();
    render_table_with_options(report, &options, use_color)
}

/// The human-readable summary of a scan: the default table report.
pub fn render_human_summary(report: &ScanReport, use_color: bool) -> (r: String)
    requires
        totals_fit(totals_of(report.files@)),
    ensures
        exists|o: ScanRenderOptions| is_default_render(o) && #[trigger] rendered_table(*report, o, use_color, r@),
{
    render_table(report, use_color)
}

} // verus!
