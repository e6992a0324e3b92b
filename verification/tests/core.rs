use rloc::analyze::{Analyzer, FileInput};
use rloc::backends::{
    cfamily_descriptors, config_backend, default_registry, js_descriptors, markdown_backend,
    rust_backend, Backend,
};
use rloc::categories::{analyze_category, analyze_category_with_options, detect_category};
use rloc::filters::{active_ignore_rules, is_ignored};
use rloc::metrics::{FileMetrics, LineBreakdown, MetricsSummary};
use rloc::registry::{LanguageBackendRegistry, LanguageDescriptor};
use rloc::types::{
    AnalysisWarning, ClassificationOptions, FileCategory, Language, ScanOptions,
};

fn input(path: &str, contents: &str) -> FileInput {
    FileInput {
        path: path.to_owned(),
        text: Ok(contents.to_owned()),
        bytes: contents.len() as u64,
    }
}

fn test_registry() -> LanguageBackendRegistry {
    LanguageBackendRegistry::new()
        .with_backend(Backend::Rust(rust_backend()))
        .with_descriptor(LanguageDescriptor::new(Language::Python, "Python", &["py"]))
}

#[test]
fn scan_options_default_excludes_generated_files() {
    let options = ScanOptions::default();

    assert!(!options.include_generated);
}

#[test]
fn advertises_gitignore_when_enabled() {
    let rules = active_ignore_rules(&ScanOptions::default());
    assert!(rules.iter().any(|rule| rule == ".gitignore"));
}

#[test]
fn gitignore_is_not_advertised_when_disabled() {
    let options = ScanOptions {
        respect_gitignore: false,
        ..ScanOptions::default()
    };
    let rules = active_ignore_rules(&options);
    assert!(!rules.iter().any(|rule| rule == ".gitignore"));
    assert!(!rules.is_empty());
}

#[test]
fn ignores_root_level_noise_directories() {
    assert!(is_ignored("target/debug/rloc"));
    assert!(is_ignored(".venv/bin/python"));
}

#[test]
fn keeps_regular_source_paths() {
    assert!(!is_ignored("src/main.rs"));
}

#[test]
fn constructs_metrics_from_named_line_breakdown() {
    let metrics = FileMetrics::from_line_breakdown(
        "src/lib.rs".to_owned(),
        Language::Rust,
        FileCategory::Source,
        42,
        LineBreakdown {
            total: 5,
            blank: 1,
            code: 2,
            comment: 1,
            doc: 0,
            mixed: 1,
            parse_errors: 0,
        },
    );

    assert_eq!(metrics.total_lines, 5);
    assert_eq!(metrics.blank_lines, 1);
    assert_eq!(metrics.code_lines, 2);
    assert_eq!(metrics.comment_lines, 1);
    assert_eq!(metrics.mixed_lines, 1);
    assert_eq!(metrics.sloc(), 3);
}

#[test]
fn metrics_flag_generated_and_vendor_categories() {
    let generated = FileMetrics::from_line_breakdown(
        "a.rs".to_owned(),
        Language::Rust,
        FileCategory::Generated,
        1,
        LineBreakdown::default(),
    );
    let vendor = FileMetrics::from_line_breakdown(
        "b.rs".to_owned(),
        Language::Rust,
        FileCategory::Vendor,
        1,
        LineBreakdown::default(),
    );
    assert!(generated.is_generated && !generated.is_vendor);
    assert!(vendor.is_vendor && !vendor.is_generated);
}

#[test]
fn summary_adds_up_files() {
    let a = FileMetrics::from_line_breakdown(
        "a.rs".to_owned(),
        Language::Rust,
        FileCategory::Source,
        10,
        LineBreakdown { total: 4, blank: 1, code: 2, comment: 0, doc: 0, mixed: 1, parse_errors: 0 },
    );
    let b = FileMetrics::from_line_breakdown(
        "b.py".to_owned(),
        Language::Python,
        FileCategory::Test,
        5,
        LineBreakdown { total: 3, blank: 0, code: 1, comment: 1, doc: 1, mixed: 0, parse_errors: 2 },
    );
    let summary = MetricsSummary::from_files(&[a, b]);
    assert_eq!(summary.files, 2);
    assert_eq!(summary.lines, 7);
    assert_eq!(summary.code, 3);
    assert_eq!(summary.mixed, 1);
    assert_eq!(summary.comment, 1);
    assert_eq!(summary.doc, 1);
    assert_eq!(summary.blank, 1);
    assert_eq!(summary.sloc, 4);
    assert_eq!(summary.bytes, 15);
    assert_eq!(summary.parse_errors, 2);
}

#[test]
fn generated_takes_priority_over_test_patterns() {
    assert_eq!(
        detect_category("tests/generated/foo.generated.rs", None),
        FileCategory::Generated
    );
}

#[test]
fn vendor_takes_priority_over_other_path_signals() {
    assert_eq!(detect_category("vendor/tests/foo.rs", None), FileCategory::Vendor);
}

#[test]
fn root_level_tests_directory_is_detected() {
    assert_eq!(detect_category("tests/foo.rs", None), FileCategory::Test);
}

#[test]
fn tools_directory_is_treated_as_script() {
    assert_eq!(detect_category("tools/generate.rs", None), FileCategory::Script);
}

#[test]
fn generated_header_marks_existing_file_as_generated() {
    let category = analyze_category(
        "root/src/generated.rs",
        Some("// Code generated by fixture. DO NOT EDIT.\nfn generated() {}\n"),
    );
    assert_eq!(category.category, FileCategory::Generated);
    assert!(category.reasons[0].contains("generated-file header"));
}

#[test]
fn custom_patterns_override_default_source_category() {
    let options = ScanOptions {
        generated_patterns: vec!["**/custom-generated/**".to_owned()],
        vendor_patterns: vec!["**/external/vendorish/**".to_owned()],
        ..ScanOptions::default()
    };

    assert_eq!(
        analyze_category_with_options(
            "root/custom-generated/out.rs",
            Some("fn generated() {}\n"),
            &options
        )
        .category,
        FileCategory::Generated
    );
    assert_eq!(
        analyze_category_with_options(
            "root/external/vendorish/helper.rs",
            Some("fn vendored() {}\n"),
            &options
        )
        .category,
        FileCategory::Vendor
    );
}

#[test]
fn markdown_files_are_categorized_as_docs() {
    assert_eq!(detect_category("docs/README.md", None), FileCategory::Docs);
}

#[test]
fn config_extensions_are_categorized_as_config() {
    assert_eq!(detect_category("Cargo.toml", None), FileCategory::Config);
    assert_eq!(detect_category("pnpm-workspace.yaml", None), FileCategory::Config);
}

#[test]
fn lock_files_are_categorized_as_generated() {
    assert_eq!(detect_category("Cargo.lock", None), FileCategory::Generated);
    assert_eq!(detect_category("uv.lock", None), FileCategory::Generated);
    assert_eq!(detect_category("package-lock.json", None), FileCategory::Generated);
}

#[test]
fn plain_source_falls_back_to_source_with_one_reason() {
    let category = analyze_category("src/lib.rs", Some("fn main() {}\n"));
    assert_eq!(category.category, FileCategory::Source);
    assert_eq!(
        category.reasons,
        vec!["category fell back to source because no more specific rule matched".to_owned()]
    );
}

#[test]
fn registry_detects_registered_extensions() {
    let registry = LanguageBackendRegistry::new()
        .with_descriptor(LanguageDescriptor::new(Language::Rust, "Rust", &["rs"]))
        .with_descriptor(LanguageDescriptor::new(Language::Python, "Python", &["py"]))
        .with_descriptor(LanguageDescriptor::new(Language::Markdown, "Markdown", &["md"]))
        .with_descriptor(LanguageDescriptor::new(
            Language::Config,
            "Config",
            &["toml", "yaml", "yml", "json", "jsonc", "lock", "ini", "cfg", "conf"],
        ));

    assert_eq!(registry.detect_language("src/lib.rs"), Language::Rust);
    assert_eq!(registry.detect_language("tests/test_app.py"), Language::Python);
    assert_eq!(registry.detect_language("README.md"), Language::Markdown);
    assert_eq!(registry.detect_language("Cargo.toml"), Language::Config);
}

#[test]
fn registry_detects_shell_dotfiles_and_wave1_extensions() {
    let registry = LanguageBackendRegistry::new()
        .with_descriptor(LanguageDescriptor::with_file_names(
            Language::Shell,
            "Shell",
            &["sh", "bash", "zsh"],
            &[".bashrc", ".zshrc", ".envrc"],
        ))
        .with_descriptor(LanguageDescriptor::new(Language::Sql, "SQL", &["sql", "psql"]))
        .with_descriptor(LanguageDescriptor::new(Language::Go, "Go", &["go"]))
        .with_descriptor(LanguageDescriptor::new(
            Language::Html,
            "HTML",
            &["html", "htm", "xhtml", "gohtml"],
        ))
        .with_descriptor(LanguageDescriptor::new(Language::Css, "CSS", &["css"]));

    assert_eq!(registry.detect_language("scripts/build.sh"), Language::Shell);
    assert_eq!(registry.detect_language("scripts/build.bash"), Language::Shell);
    assert_eq!(registry.detect_language("scripts/build.zsh"), Language::Shell);
    assert_eq!(registry.detect_language(".bashrc"), Language::Shell);
    assert_eq!(registry.detect_language(".zshrc"), Language::Shell);
    assert_eq!(registry.detect_language(".envrc"), Language::Shell);
    assert_eq!(registry.detect_language("db/query.sql"), Language::Sql);
    assert_eq!(registry.detect_language("db/query.psql"), Language::Sql);
    assert_eq!(registry.detect_language("cmd/main.go"), Language::Go);
    assert_eq!(registry.detect_language("web/index.html"), Language::Html);
    assert_eq!(registry.detect_language("web/index.htm"), Language::Html);
    assert_eq!(registry.detect_language("web/layout.xhtml"), Language::Html);
    assert_eq!(registry.detect_language("web/page.gohtml"), Language::Html);
    assert_eq!(registry.detect_language("web/app.css"), Language::Css);
}

#[test]
fn supported_languages_follow_registered_descriptors() {
    let registry = LanguageBackendRegistry::new()
        .with_descriptor(LanguageDescriptor::new(Language::Rust, "Rust", &["rs"]))
        .with_descriptor(LanguageDescriptor::new(Language::TypeScript, "TypeScript", &["ts"]))
        .with_descriptor(LanguageDescriptor::with_file_names(
            Language::Shell,
            "Shell",
            &["sh"],
            &[".bashrc"],
        ))
        .with_descriptor(LanguageDescriptor::new(Language::Sql, "SQL", &["sql"]))
        .with_descriptor(LanguageDescriptor::new(Language::Go, "Go", &["go"]))
        .with_descriptor(LanguageDescriptor::new(Language::Html, "HTML", &["html"]))
        .with_descriptor(LanguageDescriptor::new(Language::Css, "CSS", &["css"]));

    assert_eq!(
        registry.supported_languages(),
        vec![
            Language::Css,
            Language::Go,
            Language::Html,
            Language::Rust,
            Language::Shell,
            Language::Sql,
            Language::TypeScript,
        ]
    );
}

#[test]
fn registry_returns_registered_backend() {
    let registry = LanguageBackendRegistry::new().with_backend(Backend::Rust(rust_backend()));

    assert!(registry.backend(Language::Rust).is_some());
    assert!(registry.backend(Language::Python).is_none());
    assert_eq!(registry.detect_language("src/lib.rs"), Language::Rust);
}

#[test]
fn reregistering_a_language_drops_its_old_extensions() {
    let registry = LanguageBackendRegistry::new()
        .with_descriptor(LanguageDescriptor::new(Language::Rust, "Rust", &["rs", "rlib"]))
        .with_descriptor(LanguageDescriptor::new(Language::Rust, "Rust", &["rs"]));

    assert_eq!(registry.detect_language("a.rs"), Language::Rust);
    assert_eq!(registry.detect_language("a.rlib"), Language::Unknown);
    assert_eq!(registry.supported_languages(), vec![Language::Rust]);
}

#[test]
fn default_registry_wires_the_built_in_backends() {
    let registry = default_registry();
    let languages = registry.supported_languages();

    assert_eq!(languages.len(), 19);
    for language in [
        Language::Html,
        Language::Css,
        Language::Shell,
        Language::Sql,
        Language::Rust,
        Language::Python,
        Language::JavaScript,
        Language::TypeScript,
        Language::Jsx,
        Language::Tsx,
        Language::Markdown,
        Language::Config,
        Language::C,
        Language::Cpp,
        Language::Java,
        Language::Swift,
        Language::ObjectiveC,
        Language::Zig,
        Language::PowerShell,
    ] {
        assert!(languages.contains(&language));
        assert!(registry.backend(language).is_some());
    }
}

#[test]
fn markdown_backend_counts_non_blank_lines_as_doc() {
    let contents = "# Title\n\nSome prose\nAnother line\n";
    let analysis = Backend::PlainText(markdown_backend()).classify_file(
        "root/README.md",
        contents,
        contents.len() as u64,
        FileCategory::Docs,
        &ClassificationOptions::default(),
    );

    assert_eq!(analysis.metrics.doc_lines, 3);
    assert_eq!(analysis.metrics.blank_lines, 1);
    assert_eq!(analysis.metrics.code_lines, 0);
}

#[test]
fn config_backend_counts_comments_and_entries() {
    let contents = "# comment\n[package]\nname = \"demo\"\n";
    let analysis = Backend::PlainText(config_backend()).classify_file(
        "root/Cargo.toml",
        contents,
        contents.len() as u64,
        FileCategory::Config,
        &ClassificationOptions::default(),
    );

    assert_eq!(analysis.metrics.comment_lines, 1);
    assert_eq!(analysis.metrics.code_lines, 2);
    assert_eq!(analysis.metrics.doc_lines, 0);
}

#[test]
fn scan_populates_physical_metrics_for_supported_files() {
    let files = vec![input("root/README.md", "ignored\n"), input("root/src/lib.rs", "fn main() {}\n\n")];
    let analyzer = Analyzer::new(test_registry());
    let report = analyzer.scan(&files, Vec::new(), &ScanOptions::default());

    assert_eq!(report.files.len(), 1);
    assert_eq!(report.files[0].language, Language::Rust);
    assert_eq!(report.files[0].total_lines, 2);
    assert_eq!(report.files[0].code_lines, 1);
    assert_eq!(report.files[0].blank_lines, 1);
    assert_eq!(report.summary.files, 1);
    assert_eq!(report.summary.lines, 2);
    assert_eq!(report.summary.code, 1);
    assert_eq!(report.summary.blank, 1);
    assert_eq!(report.by_language.len(), 1);
    assert_eq!(report.warnings.len(), 1);
    assert_eq!(
        report.warnings[0].message,
        "1 file with an unsupported extension was skipped (.md: 1)"
    );
    assert!(report.warnings[0].path.is_none());
    assert!(report.warnings[0].language.is_none());
}

#[test]
fn scan_aggregates_unsupported_extension_warnings() {
    let files = vec![
        input("root/Cargo.toml", "[package]\nname = \"fixture\"\n"),
        input("root/README.md", "ignored\n"),
        input("root/src/lib.rs", "fn main() {}\n"),
    ];
    let analyzer = Analyzer::new(test_registry());
    let report = analyzer.scan(&files, Vec::new(), &ScanOptions::default());

    assert_eq!(report.summary.files, 1);
    assert_eq!(report.warnings.len(), 1);
    assert_eq!(
        report.warnings[0].message,
        "2 files with unsupported extensions were skipped (.md: 1, .toml: 1)"
    );
    assert!(report.warnings[0].path.is_none());
    assert!(report.warnings[0].language.is_none());
}

#[test]
fn detect_summarizes_languages_categories_and_ignore_rules() {
    let files = vec![
        input("root/src/lib.rs", "fn main() {}\n"),
        input("root/tests/test_app.py", "def test_ok():\n    pass\n"),
    ];
    let analyzer = Analyzer::new(test_registry());
    let report = analyzer.detect("root", &files, Vec::new(), &ScanOptions::default());

    assert!(report.presets.is_empty());
    assert!(report.warnings.is_empty());
    assert_eq!(report.languages, vec![Language::Python, Language::Rust]);
    assert_eq!(report.categories.len(), 2);
    assert!(report.active_ignore_rules.iter().any(|rule| rule == ".gitignore"));
}

#[test]
fn detect_reports_languages_categories_and_ignore_rules() {
    let files = vec![
        input("root/src/lib.rs", "fn main() {}\n"),
        input("root/tests/test_app.py", "def test_ok():\n    pass\n"),
    ];
    let analyzer = Analyzer::new(default_registry());
    let report = analyzer.detect("root", &files, Vec::new(), &ScanOptions::default());

    assert_eq!(report.languages, vec![Language::Python, Language::Rust]);
    assert_eq!(report.categories, vec![FileCategory::Source, FileCategory::Test]);
    assert!(report.active_ignore_rules.iter().any(|rule| rule == ".gitignore"));
    assert!(report.warnings.is_empty());
}

#[test]
fn detect_aggregates_unsupported_extension_warnings() {
    let files = vec![
        input("root/Cargo.toml", "[package]\nname = \"fixture\"\n"),
        input("root/README.md", "ignored\n"),
        input("root/src/lib.rs", "fn main() {}\n"),
    ];
    let analyzer = Analyzer::new(test_registry());
    let report = analyzer.detect("root", &files, Vec::new(), &ScanOptions::default());

    assert_eq!(report.languages, vec![Language::Rust]);
    assert_eq!(report.warnings.len(), 1);
    assert_eq!(
        report.warnings[0].message,
        "2 files with unsupported extensions were skipped (.md: 1, .toml: 1)"
    );
    assert!(report.warnings[0].path.is_none());
    assert!(report.warnings[0].language.is_none());
}

#[test]
fn scan_adds_sample_unsupported_path_warnings_when_requested() {
    let files = vec![
        input("root/README.txt", "ignored\n"),
        input("root/notes.log", "ignored\n"),
        input("root/src/lib.rs", "fn main() {}\n"),
    ];
    let report = Analyzer::new(test_registry()).scan(
        &files,
        Vec::new(),
        &ScanOptions {
            unsupported_sample_limit: Some(1),
            ..ScanOptions::default()
        },
    );

    assert_eq!(report.warnings.len(), 2);
    assert_eq!(
        report.warnings[0].message,
        "2 files with unsupported extensions were skipped (.log: 1, .txt: 1)"
    );
    assert_eq!(report.warnings[1].message, "unsupported extension skipped");
    assert_eq!(report.warnings[1].path, Some("root/README.txt".to_owned()));
}

#[test]
fn detect_adds_sample_unsupported_path_warnings_when_requested() {
    let files = vec![
        input("root/README.txt", "ignored\n"),
        input("root/notes.log", "ignored\n"),
        input("root/src/lib.rs", "fn main() {}\n"),
    ];
    let report = Analyzer::new(test_registry()).detect(
        "root",
        &files,
        Vec::new(),
        &ScanOptions {
            unsupported_sample_limit: Some(2),
            ..ScanOptions::default()
        },
    );

    assert_eq!(report.warnings.len(), 3);
    assert_eq!(
        report.warnings[0].message,
        "2 files with unsupported extensions were skipped (.log: 1, .txt: 1)"
    );
    assert_eq!(report.warnings[1].path, Some("root/README.txt".to_owned()));
    assert_eq!(report.warnings[2].path, Some("root/notes.log".to_owned()));
}

#[test]
fn scan_reports_missing_extensions_in_unsupported_warning() {
    let files = vec![input("root/README", "ignored\n"), input("root/src/lib.rs", "fn main() {}\n")];
    let analyzer = Analyzer::new(test_registry());
    let report = analyzer.scan(&files, Vec::new(), &ScanOptions::default());

    assert_eq!(report.warnings.len(), 1);
    assert_eq!(
        report.warnings[0].message,
        "1 file with an unsupported extension was skipped (no extension: 1)"
    );
    assert!(report.warnings[0].path.is_none());
    assert!(report.warnings[0].language.is_none());
}

#[test]
fn scan_keeps_discovery_warnings_first() {
    let files = vec![input("root/README", "ignored\n"), input("root/src/lib.rs", "fn main() {}\n")];
    let analyzer = Analyzer::new(test_registry());
    let report = analyzer.scan(
        &files,
        vec![AnalysisWarning::new("skipped unreadable path during discovery: denied")],
        &ScanOptions::default(),
    );

    assert_eq!(report.warnings.len(), 2);
    assert_eq!(
        report.warnings[0].message,
        "skipped unreadable path during discovery: denied"
    );
    assert_eq!(
        report.warnings[1].message,
        "1 file with an unsupported extension was skipped (no extension: 1)"
    );
}

#[test]
fn scan_skips_excluded_languages_and_categories() {
    let files = vec![
        input("root/src/lib.rs", "fn main() {}\n"),
        input("root/src/app.py", "print(1)\n"),
        input("root/tests/test_app.py", "def test_ok():\n    pass\n"),
    ];
    let analyzer = Analyzer::new(default_registry());
    let report = analyzer.scan(
        &files,
        Vec::new(),
        &ScanOptions {
            languages: Some(vec![Language::Python]),
            include_tests: false,
            ..ScanOptions::default()
        },
    );

    assert_eq!(report.files.len(), 1);
    assert_eq!(report.files[0].path, "root/src/app.py");
    assert!(report.warnings.is_empty());
}

#[test]
fn by_language_summaries_add_up_to_the_summary() {
    let files = vec![
        input("root/src/lib.rs", "fn main() {}\n// note\n"),
        input("root/src/app.py", "print(1)\n\n"),
        input("root/src/util.rs", "fn util() {}\n"),
    ];
    let report = Analyzer::new(default_registry()).scan(&files, Vec::new(), &ScanOptions::default());

    assert_eq!(report.by_language.len(), 2);
    assert_eq!(report.by_language[0].language, Language::Rust);
    assert_eq!(report.by_language[1].language, Language::Python);
    let lines: u64 = report.by_language.iter().map(|g| g.summary.lines).sum();
    let files_counted: usize = report.by_language.iter().map(|g| g.summary.files).sum();
    assert_eq!(lines, report.summary.lines);
    assert_eq!(files_counted, report.summary.files);
    assert_eq!(report.summary.lines, 5);
    assert_eq!(report.by_language[0].summary.files, 2);
}

#[test]
fn explain_reports_reasons_for_supported_files() {
    let analyzer = Analyzer::new(test_registry());
    let report = analyzer
        .explain(&input("root/tools/build.rs", "fn main() {}\n"), true)
        .unwrap();

    assert!(report.reasons[0].contains("language detected as rust"));
    assert_eq!(report.metrics.total_lines, 1);
    assert_eq!(report.metrics.code_lines, 1);
    assert_eq!(report.line_explanations.len(), 1);
    assert!(report.warnings.is_empty());
    assert_eq!(report.language, Language::Rust);
    assert_eq!(report.category.as_str(), "script");
    assert_eq!(report.reasons.len(), 2);
}

#[test]
fn explain_rejects_unknown_and_unreadable_targets() {
    let analyzer = Analyzer::new(test_registry());
    let unknown = analyzer.explain(&input("root/notes.log", "x\n"), true);
    assert_eq!(unknown.unwrap_err(), "root/notes.log is not a supported source file");
    let directory = analyzer.explain(&input("root/src", ""), false);
    assert_eq!(directory.unwrap_err(), "root/src is not a readable file");
}

#[test]
fn language_and_category_names() {
    assert_eq!(Language::JavaScript.as_str(), "javascript");
    assert_eq!(Language::ObjectiveC.as_str(), "objective-c");
    assert_eq!(FileCategory::Generated.as_str(), "generated");
}

#[test]
fn explain_agrees_with_scan_on_a_classified_file() {
    let source = "/// docs\nfn main() { // note\n}\n\n";
    let file = input("root/src/lib.rs", source);
    let analyzer = Analyzer::new(default_registry());
    let options = ScanOptions::default();
    let report = analyzer.scan(&vec![input("root/src/lib.rs", source)], Vec::new(), &options);
    let explained = analyzer.explain_with_options(&file, true, &options).unwrap();

    let scanned = &report.files[0];
    assert_eq!(explained.language, scanned.language);
    assert_eq!(explained.category, scanned.category);
    assert_eq!(explained.metrics.total_lines, scanned.total_lines);
    assert_eq!(explained.metrics.doc_lines, 1);
    assert_eq!(explained.metrics.mixed_lines, 1);
    assert_eq!(explained.metrics.code_lines, 1);
    assert_eq!(explained.metrics.blank_lines, 1);
    assert_eq!(explained.metrics.doc_lines, scanned.doc_lines);
    assert_eq!(explained.metrics.mixed_lines, scanned.mixed_lines);
    assert_eq!(explained.metrics.code_lines, scanned.code_lines);
}

#[test]
fn language_family_descriptors_list_their_languages() {
    let js = js_descriptors();
    assert_eq!(js[0].language, Language::JavaScript);
    assert_eq!(js[1].extensions, &["ts"]);
    assert_eq!(js[3].language, Language::Tsx);
    let c = cfamily_descriptors();
    assert_eq!(c[0].extensions, &["c", "h"]);
    assert_eq!(c[4].display_name, "Objective-C");
    assert_eq!(c[5].language, Language::Zig);
    let registry = LanguageBackendRegistry::new().extend(&c);
    assert_eq!(registry.detect_language("src/main.h"), Language::C);
    assert_eq!(registry.supported_languages().len(), 6);
}

#[test]
fn plain_text_backends_describe_their_languages_in_full() {
    let markdown = markdown_backend().descriptor();
    assert_eq!(markdown.language, Language::Markdown);
    assert_eq!(markdown.display_name, "Markdown");
    assert_eq!(markdown.extensions, &["md"]);
    assert!(markdown.file_names.is_empty());
    let config = config_backend().descriptor();
    assert_eq!(config.language, Language::Config);
    assert_eq!(config.display_name, "Config");
    assert_eq!(
        config.extensions,
        &["toml", "yaml", "yml", "json", "jsonc", "lock", "ini", "cfg", "conf"]
    );
    assert!(config.file_names.is_empty());
}

#[test]
fn js_family_descriptors_name_one_extension_each() {
    let js = js_descriptors();
    let expected = [
        (Language::JavaScript, "JavaScript", "js"),
        (Language::TypeScript, "TypeScript", "ts"),
        (Language::Jsx, "JSX", "jsx"),
        (Language::Tsx, "TSX", "tsx"),
    ];
    for (d, (language, name, ext)) in js.iter().zip(expected) {
        assert_eq!(d.language, language);
        assert_eq!(d.display_name, name);
        assert_eq!(d.extensions, &[ext]);
        assert!(d.file_names.is_empty());
    }
}

#[test]
fn an_unbuildable_glob_pattern_matches_nothing() {
    let options = ScanOptions {
        vendor_patterns: vec!["[".to_owned(), "**/third_party/**".to_owned()],
        generated_patterns: vec!["{".to_owned()],
        ..ScanOptions::default()
    };
    assert_eq!(
        analyze_category_with_options("root/[/main.rs", Some("fn main() {}\n"), &options).category,
        FileCategory::Source
    );
    assert_eq!(
        analyze_category_with_options("root/third_party/lib.rs", Some("fn f() {}\n"), &options).category,
        FileCategory::Vendor
    );
}

#[test]
fn detection_prefers_a_registered_file_name_over_the_extension() {
    let registry = default_registry();
    assert_eq!(registry.detect_language("scripts/.bashrc"), Language::Shell);
    assert_eq!(registry.detect_language("src/app.tsx"), Language::Tsx);
    assert_eq!(registry.detect_language("notes.unknownext"), Language::Unknown);
    assert_eq!(registry.detect_language("Makefile.nothing"), Language::Unknown);
}
