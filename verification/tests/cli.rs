use rloc::cli::{
    config_source_comment, default_group_by, default_top_dirs, default_top_files,
    format_from_config, normalize_args, output_format_name, plan_scan, render_options,
    report_format, report_group_by, report_overrides, scan_group_by, scan_group_by_from_config,
    scan_overrides, should_inject_default_scan, AppError, GroupBy, LanguageArg, OutputFormat,
    ScanArgs,
};
use rloc::config::{ConfigFile, ReportConfig, ReportFormat, ReportGroupBy};
use rloc::report::ScanGroupBy;
use rloc::types::{Language, ScanOptions};

fn default_args() -> ScanArgs {
    ScanArgs {
        path: ".".to_owned(),
        format: None,
        group_by: Vec::new(),
        top_files: None,
        top_dirs: None,
        no_top_files: false,
        no_top_dirs: false,
        list_unsupported: None,
        languages: Vec::new(),
        exclude: Vec::new(),
        no_tests: false,
        generated: false,
        no_vendor: false,
        config: None,
        no_gitignore: false,
        hidden: false,
    }
}

fn texts(args: &[&str]) -> Vec<Option<String>> {
    args.iter().map(|a| Some((*a).to_owned())).collect()
}

#[test]
fn format_from_config_supports_json_output() {
    assert!(matches!(format_from_config(ReportFormat::Json), OutputFormat::Json));
    assert!(matches!(format_from_config(ReportFormat::Table), OutputFormat::Table));
}

#[test]
fn scan_overrides_capture_cli_filter_flags() {
    let mut args = default_args();
    args.languages = vec![LanguageArg::Rust, LanguageArg::Typescript];
    args.exclude = vec!["**/dist/**".to_owned(), "**/target/**".to_owned()];
    args.hidden = true;
    args.no_gitignore = true;
    args.no_tests = true;
    args.generated = true;
    args.no_vendor = true;

    let overrides = scan_overrides(&args);

    assert_eq!(overrides.languages, Some(vec![Language::Rust, Language::TypeScript]));
    assert_eq!(
        overrides.exclude_patterns,
        Some(vec!["**/dist/**".to_owned(), "**/target/**".to_owned()])
    );
    assert_eq!(overrides.hidden, Some(true));
    assert_eq!(overrides.respect_gitignore, Some(false));
    assert_eq!(overrides.include_tests, Some(false));
    assert_eq!(overrides.include_generated, Some(true));
    assert_eq!(overrides.include_vendor, Some(false));
}

#[test]
fn scan_overrides_are_empty_without_flags() {
    let overrides = scan_overrides(&default_args());
    assert_eq!(overrides.languages, None);
    assert_eq!(overrides.exclude_patterns, None);
    assert_eq!(overrides.hidden, None);
    assert_eq!(overrides.respect_gitignore, None);
    assert_eq!(overrides.include_tests, None);
    assert_eq!(overrides.include_generated, None);
    assert_eq!(overrides.include_vendor, None);
}

#[test]
fn report_overrides_capture_cli_reporting_flags() {
    let mut args = default_args();
    args.format = Some(OutputFormat::Json);
    args.top_files = Some(25);
    args.top_dirs = Some(5);
    args.group_by = vec![GroupBy::Category, GroupBy::Dir];

    let overrides = report_overrides(&args);

    assert_eq!(overrides.format, Some(ReportFormat::Json));
    assert_eq!(overrides.top_files, Some(25));
    assert_eq!(overrides.top_dirs, Some(5));
    assert!(!overrides.disable_top_files);
    assert!(!overrides.disable_top_dirs);
    assert_eq!(
        overrides.group_by,
        Some(vec![ReportGroupBy::Category, ReportGroupBy::Dir])
    );
}

#[test]
fn report_overrides_can_disable_top_sections() {
    let mut args = default_args();
    args.no_top_files = true;
    args.no_top_dirs = true;

    let overrides = report_overrides(&args);

    assert_eq!(overrides.top_files, None);
    assert_eq!(overrides.top_dirs, None);
    assert!(overrides.disable_top_files);
    assert!(overrides.disable_top_dirs);
}

#[test]
fn zero_limits_on_the_command_line_disable_sections() {
    let mut args = default_args();
    args.top_files = Some(0);

    let overrides = report_overrides(&args);
    assert_eq!(overrides.top_files, None);
    assert!(overrides.disable_top_files);
    assert!(!overrides.disable_top_dirs);
    assert_eq!(default_top_files(&args, &ReportConfig::default()), None);
}

#[test]
fn report_defaults_are_taken_from_config_when_present() {
    let args = default_args();
    let report = ReportConfig {
        format: ReportFormat::Json,
        top_files: Some(7),
        top_dirs: Some(3),
        group_by: vec![ReportGroupBy::Category, ReportGroupBy::Dir],
    };

    assert_eq!(
        default_group_by(&args, &report),
        vec![ScanGroupBy::Category, ScanGroupBy::Dir]
    );
    assert_eq!(default_top_files(&args, &report), Some(7));
    assert_eq!(default_top_dirs(&args, &report), Some(3));
}

#[test]
fn report_defaults_fall_back_to_built_in_values_without_config_file() {
    let args = default_args();
    let report = ReportConfig::default();

    assert_eq!(default_group_by(&args, &report), vec![ScanGroupBy::Language]);
    assert_eq!(default_top_files(&args, &report), Some(10));
    assert_eq!(default_top_dirs(&args, &report), Some(10));
}

#[test]
fn no_top_flags_disable_default_report_limits() {
    let mut args = default_args();
    let report = ReportConfig::default();
    args.no_top_files = true;
    args.no_top_dirs = true;

    assert_eq!(default_top_files(&args, &report), None);
    assert_eq!(default_top_dirs(&args, &report), None);
}

#[test]
fn group_by_flags_win_over_config() {
    let mut args = default_args();
    args.group_by = vec![GroupBy::File, GroupBy::Language];
    let report = ReportConfig {
        group_by: vec![ReportGroupBy::Dir],
        ..ReportConfig::default()
    };
    assert_eq!(
        default_group_by(&args, &report),
        vec![ScanGroupBy::File, ScanGroupBy::Language]
    );
}

#[test]
fn enum_conversions_keep_the_variant() {
    assert_eq!(output_format_name(OutputFormat::Table), "table");
    assert_eq!(output_format_name(OutputFormat::Json), "json");
    assert_eq!(report_format(OutputFormat::Json), ReportFormat::Json);
    assert_eq!(report_group_by(GroupBy::Dir), ReportGroupBy::Dir);
    assert_eq!(scan_group_by(GroupBy::File), ScanGroupBy::File);
    assert_eq!(scan_group_by_from_config(ReportGroupBy::Category), ScanGroupBy::Category);
    assert_eq!(Language::from(LanguageArg::Javascript), Language::JavaScript);
    assert_eq!(Language::from(LanguageArg::Config), Language::Config);
    assert_eq!(Language::from(LanguageArg::Shell), Language::Shell);
}

#[test]
fn normalizes_default_scan_without_subcommand() {
    let line = texts(&["rloc", "."]);
    let normalized = normalize_args(line.clone(), &line, Some("scan".to_owned()));
    assert_eq!(normalized, texts(&["rloc", "scan", "."]));
}

#[test]
fn normalizes_default_scan_with_scan_flags() {
    let line = texts(&["rloc", "--format", "json", "--exclude", "**/target/**,**/dist/**", "."]);
    let normalized = normalize_args(line.clone(), &line, Some("scan".to_owned()));
    assert_eq!(
        normalized,
        texts(&["rloc", "scan", "--format", "json", "--exclude", "**/target/**,**/dist/**", "."])
    );
}

#[test]
fn keeps_named_subcommands_unchanged() {
    for command in ["detect", "scan", "explain", "config", "help", "-h", "--help", "-V", "--version"] {
        let line = texts(&["rloc", command, "."]);
        let normalized = normalize_args(line.clone(), &line, Some("scan".to_owned()));
        assert_eq!(normalized, line);
    }
}

#[test]
fn bare_invocation_means_scan() {
    assert!(should_inject_default_scan(&[]));
    assert!(should_inject_default_scan(&[None]));
    assert!(!should_inject_default_scan(&texts(&["detect"])));
    let line = texts(&["rloc"]);
    assert_eq!(
        normalize_args(line.clone(), &line, Some("scan".to_owned())),
        texts(&["rloc", "scan"])
    );
    let empty: Vec<Option<String>> = Vec::new();
    assert!(normalize_args(empty.clone(), &empty, Some("scan".to_owned())).is_empty());
}

#[test]
fn normalizing_twice_changes_nothing_more() {
    let line = texts(&["rloc", "--hidden"]);
    let once = normalize_args(line.clone(), &line, Some("scan".to_owned()));
    let twice = normalize_args(once.clone(), &once, Some("scan".to_owned()));
    assert_eq!(once, twice);
}

#[test]
fn render_options_combine_flags_scan_and_report_settings() {
    let mut args = default_args();
    args.path = "repo".to_owned();
    args.top_dirs = Some(4);
    let scan = ScanOptions {
        include_generated: true,
        respect_gitignore: false,
        ..ScanOptions::default()
    };
    let report = ReportConfig::default();
    let options = render_options(&args, &scan, &report, OutputFormat::Json);
    assert_eq!(options.path, "repo");
    assert_eq!(options.format, "json");
    assert_eq!(options.group_by, vec![ScanGroupBy::Language]);
    assert_eq!(options.top_files, Some(10));
    assert_eq!(options.top_dirs, Some(4));
    assert!(!options.respect_gitignore);
    assert!(options.include_generated);
    assert!(!options.include_vendor);
    assert!(options.include_tests);
}

#[test]
fn plan_uses_config_format_and_flag_limits() {
    let mut args = default_args();
    args.list_unsupported = Some(5);
    args.no_top_dirs = true;
    args.hidden = true;
    let config = ConfigFile {
        report: ReportConfig {
            format: ReportFormat::Json,
            ..ReportConfig::default()
        },
        ..ConfigFile::default()
    };
    let plan = plan_scan(&args, &config);
    assert!(matches!(plan.format, OutputFormat::Json));
    assert_eq!(plan.options.unsupported_sample_limit, Some(5));
    assert!(plan.options.hidden);
    assert_eq!(plan.render.format, "json");
    assert_eq!(plan.render.top_files, Some(10));
    assert_eq!(plan.render.top_dirs, None);
}

#[test]
fn plan_prefers_the_format_flag() {
    let mut args = default_args();
    args.format = Some(OutputFormat::Table);
    let config = ConfigFile {
        report: ReportConfig {
            format: ReportFormat::Json,
            ..ReportConfig::default()
        },
        ..ConfigFile::default()
    };
    let plan = plan_scan(&args, &config);
    assert!(matches!(plan.format, OutputFormat::Table));
    assert_eq!(plan.render.format, "table");
}

#[test]
fn exit_codes_follow_the_error_kind() {
    assert_eq!(AppError::runtime("boom".to_owned()).exit_code(), 1);
    assert_eq!(AppError::invalid_input("bad".to_owned()).exit_code(), 2);
    assert_eq!(AppError::unreadable_path("missing".to_owned()).exit_code(), 3);
    assert_eq!(AppError::unsupported_explain_target("x".to_owned()).exit_code(), 4);
}

#[test]
fn config_source_comment_names_the_file_or_the_defaults() {
    assert_eq!(config_source_comment(Some("repo/.rloc.toml")), "# source: repo/.rloc.toml");
    assert_eq!(
        config_source_comment(None),
        "# source: built-in defaults (no .rloc.toml found)"
    );
}
