use rloc::config::{
    default_config_path, detect_presets, merge_report_config, merge_scan_options,
    normalize_top_limit, scan_options_from_config, ClassificationConfig, ConfigFile,
    FiltersConfig, Preset, ProjectMarkers, ReportConfig, ReportFormat, ReportGroupBy,
    ReportOverrides, ScanConfig, ScanOverrides,
};
use rloc::types::Language;

fn no_markers() -> ProjectMarkers {
    ProjectMarkers {
        cargo_toml: false,
        pyproject_toml: false,
        requirements_txt: false,
        setup_py: false,
        package_json: false,
        pnpm_workspace_yaml: false,
        turbo_json: false,
        nx_json: false,
        lerna_json: false,
        packages_dir: false,
        crates_dir: false,
    }
}

#[test]
fn filters_default_excludes_generated_files() {
    let filters = FiltersConfig::default();

    assert!(!filters.include_generated);
}

#[test]
fn report_defaults_enable_top_sections() {
    let report = ReportConfig::default();

    assert_eq!(report.top_files, Some(10));
    assert_eq!(report.top_dirs, Some(10));
}

#[test]
fn config_defaults_match_the_built_in_template() {
    let config = ConfigFile::default();
    assert!(config.scan.respect_gitignore);
    assert!(!config.scan.hidden);
    assert!(config.filters.include_tests);
    assert!(!config.filters.include_vendor);
    assert!(config.classification.count_doc_comments);
    assert!(config.classification.count_docstrings_as_comments);
    assert!(config.classification.mixed_lines_as_code);
    assert_eq!(config.report.format, ReportFormat::Table);
    assert_eq!(config.report.group_by, vec![ReportGroupBy::Language]);
}

#[test]
fn applies_scan_and_filter_defaults_from_config() {
    let config = ConfigFile {
        scan: ScanConfig {
            respect_gitignore: false,
            hidden: true,
        },
        filters: FiltersConfig {
            exclude: vec!["**/target/**".to_owned()],
            include_tests: false,
            include_generated: false,
            include_vendor: true,
            ..FiltersConfig::default()
        },
        ..ConfigFile::default()
    };

    let options = scan_options_from_config(&config);
    assert!(options.hidden);
    assert!(!options.respect_gitignore);
    assert!(!options.include_tests);
    assert!(!options.include_generated);
    assert!(options.include_vendor);
    assert_eq!(options.exclude_patterns, vec!["**/target/**"]);
}

#[test]
fn cli_overrides_take_precedence_over_config() {
    let config = ConfigFile {
        scan: ScanConfig {
            respect_gitignore: true,
            hidden: false,
        },
        filters: FiltersConfig {
            include_tests: true,
            include_generated: true,
            include_vendor: false,
            ..FiltersConfig::default()
        },
        ..ConfigFile::default()
    };

    let options = merge_scan_options(
        &config,
        &ScanOverrides {
            languages: Some(vec![Language::Rust]),
            exclude_patterns: Some(vec!["**/dist/**".to_owned()]),
            hidden: Some(true),
            respect_gitignore: Some(false),
            include_tests: Some(false),
            include_generated: Some(false),
            include_vendor: Some(true),
        },
    );

    assert_eq!(options.languages, Some(vec![Language::Rust]));
    assert_eq!(options.exclude_patterns, vec!["**/dist/**"]);
    assert!(options.hidden);
    assert!(!options.respect_gitignore);
    assert!(!options.include_tests);
    assert!(!options.include_generated);
    assert!(options.include_vendor);
}

#[test]
fn cli_excludes_are_appended_to_config_excludes() {
    let config = ConfigFile {
        filters: FiltersConfig {
            exclude: vec!["**/target/**".to_owned()],
            ..FiltersConfig::default()
        },
        ..ConfigFile::default()
    };
    let options = merge_scan_options(
        &config,
        &ScanOverrides {
            exclude_patterns: Some(vec!["**/dist/**".to_owned()]),
            ..ScanOverrides::default()
        },
    );
    assert_eq!(options.exclude_patterns, vec!["**/target/**", "**/dist/**"]);
}

#[test]
fn merging_without_overrides_keeps_the_config() {
    let config = ConfigFile {
        scan: ScanConfig {
            respect_gitignore: false,
            hidden: true,
        },
        ..ConfigFile::default()
    };
    let merged = merge_scan_options(&config, &ScanOverrides::default());
    let plain = scan_options_from_config(&config);
    assert_eq!(merged, plain);
}

#[test]
fn report_overrides_take_precedence_over_config() {
    let config = ConfigFile {
        report: ReportConfig {
            format: ReportFormat::Table,
            top_files: Some(10),
            top_dirs: Some(10),
            group_by: vec![ReportGroupBy::Language],
        },
        ..ConfigFile::default()
    };

    let report = merge_report_config(
        &config,
        &ReportOverrides {
            format: Some(ReportFormat::Json),
            top_files: Some(25),
            top_dirs: Some(5),
            disable_top_files: false,
            disable_top_dirs: false,
            group_by: Some(vec![ReportGroupBy::Category, ReportGroupBy::Dir]),
        },
    );

    assert_eq!(report.format, ReportFormat::Json);
    assert_eq!(report.top_files, Some(25));
    assert_eq!(report.top_dirs, Some(5));
    assert_eq!(report.group_by, vec![ReportGroupBy::Category, ReportGroupBy::Dir]);
}

#[test]
fn zero_top_limits_disable_sections() {
    let config = ConfigFile {
        report: ReportConfig {
            top_files: Some(0),
            top_dirs: Some(0),
            ..ReportConfig::default()
        },
        ..ConfigFile::default()
    };

    let report = merge_report_config(&config, &ReportOverrides::default());

    assert_eq!(report.top_files, None);
    assert_eq!(report.top_dirs, None);
}

#[test]
fn disable_flags_win_over_limits() {
    let report = merge_report_config(
        &ConfigFile::default(),
        &ReportOverrides {
            top_files: Some(3),
            disable_top_files: true,
            ..ReportOverrides::default()
        },
    );
    assert_eq!(report.top_files, None);
    assert_eq!(report.top_dirs, Some(10));
}

#[test]
fn normalize_top_limit_drops_zero() {
    assert_eq!(normalize_top_limit(Some(0)), None);
    assert_eq!(normalize_top_limit(Some(4)), Some(4));
    assert_eq!(normalize_top_limit(None), None);
}

#[test]
fn scan_options_include_classification_toggles_and_custom_patterns() {
    let config = ConfigFile {
        filters: FiltersConfig {
            generated_patterns: vec!["**/generated/**".to_owned()],
            vendor_patterns: vec!["**/third_party/**".to_owned()],
            ..FiltersConfig::default()
        },
        classification: ClassificationConfig {
            count_doc_comments: false,
            count_docstrings_as_comments: false,
            mixed_lines_as_code: false,
        },
        ..ConfigFile::default()
    };

    let options = scan_options_from_config(&config);

    assert_eq!(options.generated_patterns, vec!["**/generated/**"]);
    assert_eq!(options.vendor_patterns, vec!["**/third_party/**"]);
    assert!(!options.classification.count_doc_comments);
    assert!(!options.classification.count_docstrings_as_comments);
    assert!(!options.classification.mixed_lines_as_code);
}

#[test]
fn report_defaults_still_merge_from_config() {
    let config = ConfigFile {
        report: ReportConfig {
            format: ReportFormat::Json,
            top_files: Some(7),
            top_dirs: Some(3),
            group_by: vec![ReportGroupBy::Category, ReportGroupBy::Dir],
        },
        ..ConfigFile::default()
    };

    let report = merge_report_config(&config, &ReportOverrides::default());

    assert_eq!(report.format, ReportFormat::Json);
    assert_eq!(report.top_files, Some(7));
    assert_eq!(report.top_dirs, Some(3));
    assert_eq!(report.group_by, vec![ReportGroupBy::Category, ReportGroupBy::Dir]);
}

#[test]
fn cli_overrides_do_not_reset_classification_or_custom_patterns() {
    let config = ConfigFile {
        filters: FiltersConfig {
            generated_patterns: vec!["**/generated/**".to_owned()],
            vendor_patterns: vec!["**/third_party/**".to_owned()],
            ..FiltersConfig::default()
        },
        classification: ClassificationConfig {
            count_doc_comments: false,
            count_docstrings_as_comments: true,
            mixed_lines_as_code: false,
        },
        ..ConfigFile::default()
    };

    let options = merge_scan_options(
        &config,
        &ScanOverrides {
            languages: Some(vec![Language::Python]),
            ..ScanOverrides::default()
        },
    );

    assert_eq!(options.generated_patterns, vec!["**/generated/**"]);
    assert_eq!(options.vendor_patterns, vec!["**/third_party/**"]);
    assert!(!options.classification.count_doc_comments);
    assert!(options.classification.count_docstrings_as_comments);
    assert!(!options.classification.mixed_lines_as_code);
}

#[test]
fn default_config_path_joins_the_file_name() {
    assert_eq!(default_config_path("repo"), "repo/.rloc.toml");
    assert_eq!(default_config_path("/work/project"), "/work/project/.rloc.toml");
}

#[test]
fn detects_language_driven_presets() {
    let markers = ProjectMarkers {
        cargo_toml: true,
        pyproject_toml: true,
        package_json: true,
        packages_dir: true,
        ..no_markers()
    };

    let presets = detect_presets(
        &markers,
        &vec![Language::Rust, Language::Python, Language::Tsx],
    );
    assert_eq!(
        presets,
        vec![Preset::Rust, Preset::Python, Preset::React, Preset::Monorepo]
    );
}

#[test]
fn skips_react_without_jsx_or_tsx_sources() {
    let markers = ProjectMarkers {
        package_json: true,
        ..no_markers()
    };

    let presets = detect_presets(&markers, &vec![Language::JavaScript, Language::TypeScript]);
    assert!(presets.is_empty());
}

#[test]
fn presets_follow_languages_without_marker_files() {
    let presets = detect_presets(&no_markers(), &vec![Language::Python, Language::Rust]);
    assert_eq!(presets, vec![Preset::Rust, Preset::Python]);
    assert_eq!(Preset::Monorepo.as_str(), "monorepo");
    assert_eq!(Preset::React.as_str(), "react");
}
