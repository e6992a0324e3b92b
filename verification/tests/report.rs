use rloc::analyze::{DetectReport, ExplainReport};
use rloc::metrics::{FileMetrics, LanguageSummary, LineBreakdown, MetricsSummary, ScanReport};
use rloc::report::listing::{render_detect_table, render_explain_table};
use rloc::report::summary::{groups, groups_for};
use rloc::report::table::{
    decorate_table_header, render_section_heading, truncate_middle, HeadingTone,
};
use rloc::report::top::{directories_overlap, is_ancestor_dir, top_dirs, top_files};
use rloc::report::{
    render_human_summary, render_table, render_table_with_options, GroupSummary, ScanGroupBy,
    ScanRenderOptions, TopFileEntry,
};
use rloc::types::{AnalysisWarning, FileCategory, Language, LineExplanation};

#[allow(clippy::too_many_arguments)]
fn metrics(
    path: &str,
    language: Language,
    category: FileCategory,
    bytes: u64,
    total: u32,
    blank: u32,
    code: u32,
    comment: u32,
    doc: u32,
    mixed: u32,
    parse_errors: u32,
) -> FileMetrics {
    FileMetrics::from_line_breakdown(
        path.to_owned(),
        language,
        category,
        bytes,
        LineBreakdown {
            total,
            blank,
            code,
            comment,
            doc,
            mixed,
            parse_errors,
        },
    )
}

fn report_of(files: Vec<FileMetrics>, order: &[Language], warnings: Vec<AnalysisWarning>) -> ScanReport {
    let mut by_language = Vec::new();
    for language in order {
        let matching = files
            .iter()
            .filter(|file| file.language == *language)
            .cloned()
            .collect::<Vec<_>>();
        if !matching.is_empty() {
            by_language.push(LanguageSummary {
                language: *language,
                summary: MetricsSummary::from_files(&matching),
            });
        }
    }
    ScanReport {
        summary: MetricsSummary::from_files(&files),
        files,
        by_language,
        warnings,
    }
}

fn sample_report() -> ScanReport {
    let files = vec![
        metrics("src/lib.rs", Language::Rust, FileCategory::Source, 120, 12, 2, 8, 1, 0, 1, 0),
        metrics(
            "src/generated/client.generated.rs",
            Language::Rust,
            FileCategory::Generated,
            70,
            6,
            1,
            4,
            0,
            0,
            0,
            0,
        ),
        metrics("tests/test_app.py", Language::Python, FileCategory::Test, 80, 10, 2, 5, 2, 0, 1, 0),
        metrics("frontend/App.tsx", Language::Tsx, FileCategory::Source, 150, 14, 3, 8, 1, 1, 3, 0),
    ];
    report_of(
        files,
        &[Language::Rust, Language::Python, Language::Tsx],
        vec![AnalysisWarning::for_path(
            "src/generated/client.generated.rs",
            "generated heuristic matched fixture file",
        )],
    )
}

fn sample_report_with_long_paths() -> ScanReport {
    let files = vec![metrics(
        "packages/company/ultra/really/deep/module/src/classify.rs",
        Language::Rust,
        FileCategory::Source,
        120,
        120,
        0,
        110,
        5,
        0,
        5,
        0,
    )];
    report_of(files, &[Language::Rust], Vec::new())
}

fn sample_report_with_large_metrics() -> ScanReport {
    let files = vec![metrics(
        "src/lib.rs",
        Language::Rust,
        FileCategory::Source,
        12_345_678,
        123_456,
        23_456,
        100_000,
        11_111,
        0,
        11_111,
        0,
    )];
    report_of(files, &[Language::Rust], Vec::new())
}

fn sample_report_with_overlapping_dirs() -> ScanReport {
    let files = vec![
        metrics("experiments/uv.lock", Language::Config, FileCategory::Generated, 1_200, 320, 20, 300, 0, 0, 0, 0),
        metrics("experiments/train.py", Language::Python, FileCategory::Source, 400, 80, 5, 75, 0, 0, 0, 0),
        metrics(
            "experiments/plate_ocr/app.py",
            Language::Python,
            FileCategory::Source,
            1_500,
            420,
            20,
            400,
            0,
            0,
            0,
            0,
        ),
        metrics(
            "tools/streamer/src/main.rs",
            Language::Rust,
            FileCategory::Script,
            900,
            220,
            15,
            205,
            0,
            0,
            0,
            0,
        ),
    ];
    report_of(files, &[Language::Rust, Language::Python, Language::Config], Vec::new())
}

fn options(
    group_by: Vec<ScanGroupBy>,
    top_files: Option<usize>,
    top_dirs: Option<usize>,
) -> ScanRenderOptions {
    ScanRenderOptions {
        path: "repo".to_owned(),
        format: "table".to_owned(),
        group_by,
        top_files,
        top_dirs,
        respect_gitignore: true,
        include_generated: true,
        include_vendor: false,
        include_tests: true,
    }
}

fn header_after_heading<'a>(rendered: &'a str, heading: &str) -> &'a str {
    let lines = rendered.lines().collect::<Vec<_>>();
    let index = lines.iter().position(|line| *line == heading).unwrap();
    lines[index + 1]
}

fn row_after_heading<'a>(rendered: &'a str, heading: &str) -> &'a str {
    let lines = rendered.lines().collect::<Vec<_>>();
    let index = lines.iter().position(|line| *line == heading).unwrap();
    lines[index + 2]
}

fn cell_value<'a>(header: &str, row: &'a str, label: &str) -> &'a str {
    let labels = header.split_whitespace().collect::<Vec<_>>();
    let index = labels.iter().position(|column| *column == label).unwrap();
    let start = header.find(label).unwrap();
    let end = labels
        .get(index + 1)
        .and_then(|next| header.find(next))
        .unwrap_or(row.len());

    row[start..end].trim()
}

#[test]
fn section_headings_are_colored_when_enabled() {
    assert_eq!(
        render_section_heading("Groups by language", HeadingTone::Info, true),
        "\u{1b}[1;36mGroups by language\u{1b}[0m"
    );
    assert_eq!(
        render_section_heading("Warnings", HeadingTone::Warning, true),
        "\u{1b}[1;33mWarnings\u{1b}[0m"
    );
}

#[test]
fn section_headings_are_plain_without_color() {
    assert_eq!(render_section_heading("Summary", HeadingTone::Info, false), "Summary");
}

#[test]
fn header_rows_are_dimmed_when_enabled() {
    assert_eq!(
        decorate_table_header("group  files", true),
        "\u{1b}[2mgroup  files\u{1b}[0m"
    );
    assert_eq!(decorate_table_header("group  files", false), "group  files");
}

#[test]
fn windows_separators_are_treated_as_directory_boundaries() {
    assert!(directories_overlap("src", "src\\nested"));
    assert!(directories_overlap("src\\nested", "src"));
}

#[test]
fn sibling_prefixes_do_not_overlap() {
    assert!(!directories_overlap("src", "src2"));
    assert!(!is_ancestor_dir(".", "src"));
    assert!(is_ancestor_dir("a/b", "a/b/c"));
    assert!(directories_overlap("a", "a"));
}

#[test]
fn truncate_middle_keeps_both_ends() {
    assert_eq!(truncate_middle("abcdefghij", 20), "abcdefghij");
    assert_eq!(truncate_middle("abcdefghij", 9), "ab...ghij");
    assert_eq!(truncate_middle("abcdefghij", 3), "...");
    assert_eq!(truncate_middle("abcdefghij", 2), "..");
    assert_eq!(truncate_middle("abcdefghij", 9).chars().count(), 9);
}

#[test]
fn table_output_renders_requested_groups() {
    let report = sample_report();
    let rendered = render_table_with_options(
        &report,
        &options(vec![ScanGroupBy::Category, ScanGroupBy::Dir], Some(2), Some(2)),
        false,
    );

    assert!(rendered.contains("Summary"));
    assert!(rendered.contains("Groups by category"));
    assert!(rendered.contains("generated"));
    assert!(rendered.contains("Groups by dir"));
    assert!(rendered.contains("frontend"));
    assert!(rendered.contains("Top files"));
    assert!(rendered.contains("Top dirs"));
    assert!(rendered.contains("Warnings"));
}

#[test]
fn table_output_includes_compact_category_totals() {
    let report = sample_report();
    let rendered =
        render_table_with_options(&report, &options(vec![ScanGroupBy::Language], None, None), false);

    let summary_index = rendered.find("Summary").unwrap();
    let category_index = rendered.find("Category totals").unwrap();
    let group_index = rendered.find("Groups by language").unwrap();

    assert!(summary_index < category_index);
    assert!(category_index < group_index);
    let category_header = header_after_heading(&rendered, "Category totals");
    assert_eq!(cell_value(category_header, category_header, "category"), "category");
    assert_eq!(cell_value(category_header, category_header, "files"), "files");
    assert_eq!(cell_value(category_header, category_header, "lines"), "lines");
    assert_eq!(cell_value(category_header, category_header, "sloc"), "sloc");
    assert!(rendered.contains("source"));
    assert!(rendered.contains("generated"));
    assert!(rendered.contains("test"));
}

#[test]
fn top_files_and_top_dirs_are_sorted_and_limited() {
    let report = sample_report();

    let files = top_files(&report, 2);
    assert_eq!(files.len(), 2);
    assert_eq!(files[0].path.as_str(), "frontend/App.tsx");
    assert_eq!(files[1].path.as_str(), "src/lib.rs");

    let dirs = top_dirs(&report, 2);
    assert_eq!(dirs.len(), 2);
    assert_eq!(dirs[0].key, "frontend");
    assert_eq!(dirs[0].sloc, 11);
    assert_eq!(dirs[1].key, "src");
    assert_eq!(dirs[1].sloc, 9);
}

#[test]
fn top_files_keeps_every_file_under_a_large_limit() {
    let report = sample_report();
    let files = top_files(&report, 10);
    assert_eq!(files.len(), 4);
    assert_eq!(files[3].path, "src/generated/client.generated.rs");
    assert!(top_files(&report, 0).is_empty());
}

#[test]
fn top_dirs_skip_overlapping_parent_and_child_directories() {
    let report = sample_report_with_overlapping_dirs();

    let dirs = top_dirs(&report, 2);

    assert_eq!(dirs.len(), 2);
    assert_eq!(dirs[0].key, "experiments/plate_ocr");
    assert_eq!(dirs[1].key, "tools/streamer/src");
}

#[test]
fn table_output_keeps_top_file_columns_aligned_for_long_paths() {
    let report = sample_report_with_long_paths();
    let rendered = render_table_with_options(&report, &options(vec![], Some(1), None), false);
    let row = row_after_heading(&rendered, "Top files");
    let header = header_after_heading(&rendered, "Top files");

    assert_eq!(cell_value(header, row, "language"), "rust");
    assert_eq!(cell_value(header, row, "category"), "source");
    assert_eq!(
        cell_value(header, row, "path"),
        "packages/company/ultra/really/deep/module/src/classify.rs"
    );
}

#[test]
fn table_output_keeps_top_dir_columns_aligned_for_long_paths() {
    let report = sample_report_with_long_paths();
    let rendered = render_table_with_options(&report, &options(vec![], None, Some(1)), false);
    let row = row_after_heading(&rendered, "Top dirs");
    let header = header_after_heading(&rendered, "Top dirs");

    assert_eq!(cell_value(header, row, "files"), "1");
    assert_eq!(cell_value(header, row, "lines"), "120");
    assert_eq!(
        cell_value(header, row, "group"),
        "packages/company/ultra/really/deep/module/src"
    );
}

#[test]
fn table_output_places_path_and_group_columns_last_in_top_sections() {
    let report = sample_report();
    let rendered = render_table_with_options(&report, &options(vec![], Some(1), Some(1)), false);
    let top_files_header = header_after_heading(&rendered, "Top files");
    let top_dirs_header = header_after_heading(&rendered, "Top dirs");

    assert_eq!(top_files_header.split_whitespace().last().unwrap(), "path");
    assert_eq!(top_dirs_header.split_whitespace().last().unwrap(), "group");
}

#[test]
fn table_output_keeps_summary_columns_aligned_for_large_numbers() {
    let report = sample_report_with_large_metrics();
    let rendered = render_table_with_options(&report, &options(vec![], None, None), false);
    let row = row_after_heading(&rendered, "Summary");
    let header = header_after_heading(&rendered, "Summary");

    assert_eq!(cell_value(header, row, "files"), "1");
    assert_eq!(cell_value(header, row, "lines"), "123456");
    assert_eq!(cell_value(header, row, "bytes"), "12345678");
    assert_eq!(cell_value(header, row, "sloc"), "111111");
}

#[test]
fn default_table_shows_language_groups_and_top_sections() {
    let report = sample_report();
    let rendered = render_table(&report, false);
    assert!(rendered.contains("Groups by language"));
    assert!(rendered.contains("Top files"));
    assert!(rendered.contains("Top dirs"));
    assert_eq!(render_human_summary(&report, false), rendered);
    assert!(!rendered.ends_with('\n'));
}

#[test]
fn groups_add_up_to_the_summary() {
    let report = sample_report();
    let by_category = groups(&report, &vec![ScanGroupBy::Category]);
    let files: usize = by_category.iter().map(|g| g.files).sum();
    let sloc: u64 = by_category.iter().map(|g| g.sloc).sum();
    assert_eq!(files, report.summary.files);
    assert_eq!(sloc, report.summary.sloc);
    assert_eq!(by_category[0].key, "source");
    assert_eq!(by_category[0].sloc, 20);
}

#[test]
fn group_summary_and_top_entry_copy_the_totals() {
    let file = metrics("src/lib.rs", Language::Rust, FileCategory::Source, 120, 12, 2, 8, 1, 0, 1, 0);
    let entry = TopFileEntry::from_file(&file);
    assert_eq!(entry.files, 1);
    assert_eq!(entry.lines, 12);
    assert_eq!(entry.sloc, 9);
    assert_eq!(entry.bytes, 120);
    let summary = MetricsSummary::from_files(&[file]);
    let group = GroupSummary::from_metrics(ScanGroupBy::Dir, "src".to_owned(), &summary);
    assert_eq!(group.group_by, "dir");
    assert_eq!(group.key, "src");
    assert_eq!(group.sloc, 9);
}

#[test]
fn detect_table_rendering_lists_all_sections() {
    let report = DetectReport {
        path: "repo".to_owned(),
        languages: vec![Language::Rust, Language::Python],
        presets: vec!["rust".to_owned(), "monorepo".to_owned()],
        categories: vec![FileCategory::Source, FileCategory::Test],
        active_ignore_rules: vec![".gitignore".to_owned(), "target/".to_owned()],
        warnings: vec![AnalysisWarning::for_language(Language::Rust, "fallback mode active")],
    };

    let rendered = render_detect_table(&report);
    assert!(rendered.contains("path: repo"));
    assert!(rendered.contains("languages:\n- rust\n- python"));
    assert!(rendered.contains("presets:\n- rust\n- monorepo"));
    assert!(rendered.contains("categories:\n- source\n- test"));
    assert!(rendered.contains("active_ignore_rules:\n- .gitignore\n- target/"));
    assert!(rendered.contains("warnings:\n- rust: fallback mode active"));
}

#[test]
fn detect_table_marks_empty_sections() {
    let report = DetectReport {
        path: "repo".to_owned(),
        languages: Vec::new(),
        presets: Vec::new(),
        categories: Vec::new(),
        active_ignore_rules: Vec::new(),
        warnings: Vec::new(),
    };
    let rendered = render_detect_table(&report);
    assert_eq!(
        rendered,
        "path: repo\nlanguages:\n- none\npresets:\n- none\ncategories:\n- none\nactive_ignore_rules:\n- none\nwarnings:\n- none"
    );
}

#[test]
fn explain_rendering_includes_metrics_and_warnings() {
    let report = ExplainReport {
        path: "src/lib.rs".to_owned(),
        language: Language::Rust,
        category: FileCategory::Source,
        metrics: FileMetrics::from_physical_snapshot(
            "src/lib.rs".to_owned(),
            Language::Rust,
            FileCategory::Source,
            42,
            10,
            2,
        ),
        reasons: vec![
            "language detected as rust from .rs extension".to_owned(),
            "category fell back to source because no more specific rule matched".to_owned(),
        ],
        line_explanations: vec![LineExplanation {
            line_number: 1,
            kind: "code".to_owned(),
            snippet: "fn main() {}".to_owned(),
            reason: "backend classified the line as code".to_owned(),
        }],
        warnings: vec![AnalysisWarning::for_file(
            "src/lib.rs",
            Language::Rust,
            "fallback mode active",
        )],
    };

    let rendered = render_explain_table(&report);
    assert!(rendered.contains("path: src/lib.rs"));
    assert!(rendered.contains("language: rust"));
    assert!(rendered.contains("category: source"));
    assert!(rendered.contains("metrics:\n  bytes: 42\n  total_lines: 10"));
    assert!(rendered.contains("reasons:\n- language detected as rust from .rs extension"));
    assert!(rendered.contains(
        "line_explanations:\n- line 1 [code] fn main() {}: backend classified the line as code"
    ));
    assert!(rendered.contains("warnings:\n- src/lib.rs (rust): fallback mode active"));
}

#[test]
fn table_sections_follow_in_order_without_trailing_whitespace() {
    let report = sample_report();
    let rendered = render_table_with_options(
        &report,
        &options(vec![ScanGroupBy::Language, ScanGroupBy::Dir], Some(1), Some(1)),
        false,
    );
    let order = [
        "Summary",
        "Category totals",
        "Groups by language",
        "Groups by dir",
        "Top files",
        "Top dirs",
        "Warnings",
    ];
    let positions: Vec<usize> = order.iter().map(|h| rendered.find(h).unwrap()).collect();
    assert!(positions.windows(2).all(|w| w[0] < w[1]));
    assert!(!rendered.ends_with(char::is_whitespace));
}

#[test]
fn an_empty_report_shows_only_its_summary() {
    let report = report_of(Vec::new(), &[], Vec::new());
    let rendered = render_table_with_options(
        &report,
        &options(vec![ScanGroupBy::Language], Some(3), Some(3)),
        false,
    );
    assert!(rendered.contains("Summary"));
    assert!(!rendered.contains("Category totals"));
    assert!(!rendered.contains("Groups by"));
    assert!(!rendered.contains("Top files"));
    assert!(!rendered.contains("Top dirs"));
    assert!(!rendered.contains("Warnings"));
    assert!(!rendered.ends_with(char::is_whitespace));
}

#[test]
fn a_zero_limit_hides_the_top_sections() {
    let report = sample_report();
    let rendered = render_table_with_options(&report, &options(Vec::new(), Some(0), Some(0)), false);
    assert!(!rendered.contains("Top files"));
    assert!(!rendered.contains("Top dirs"));
}

#[test]
fn groups_are_sorted_distinct_and_sum_to_the_report() {
    let report = sample_report();
    for by in [ScanGroupBy::Language, ScanGroupBy::Category, ScanGroupBy::Dir] {
        let gs = groups_for(&report, by);
        for w in gs.windows(2) {
            let (a, b) = (&w[0], &w[1]);
            assert!(
                a.sloc > b.sloc
                    || (a.sloc == b.sloc && (a.lines > b.lines || (a.lines == b.lines && a.key < b.key)))
            );
        }
        for (i, a) in gs.iter().enumerate() {
            assert_eq!(a.group_by, by.as_str());
            for b in &gs[i + 1..] {
                assert_ne!(a.key, b.key);
            }
        }
        assert_eq!(gs.iter().map(|g| g.files).sum::<usize>(), report.files.len());
        let sloc: u64 = report.files.iter().map(|f| u64::from(f.code_lines) + u64::from(f.mixed_lines)).sum();
        assert_eq!(gs.iter().map(|g| g.sloc).sum::<u64>(), sloc);
    }
    let dirs = groups_for(&report, ScanGroupBy::Dir);
    assert!(dirs.iter().any(|g| g.key == "src"));
}

#[test]
fn top_dirs_are_limited_and_never_overlap() {
    let report = sample_report_with_overlapping_dirs();
    for limit in 0..5 {
        let dirs = top_dirs(&report, limit);
        assert!(dirs.len() <= limit);
        for (i, a) in dirs.iter().enumerate() {
            for b in &dirs[i + 1..] {
                assert!(!directories_overlap(&a.key, &b.key));
                assert!(!directories_overlap(&b.key, &a.key));
            }
        }
    }
}
