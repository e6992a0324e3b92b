//! What the command line decides: which subcommand a bare invocation means, the
//! overrides that scan flags give, and how they combine with the configuration
//! file into scan and render settings; and the exit code of each failure.
use vstd::prelude::*;

use crate::config::{
    languages_view, merged_options, merge_report_config, merge_scan_options, merged_report, positive_limit,
    strings_view, ConfigFile, ReportConfig, ReportFormat, ReportGroupBy, ReportOverrides, ScanOverrides,
};
use crate::report::{ScanGroupBy, ScanRenderOptions};
use crate::types::{Language, ScanOptions};

verus! {

/// The subcommands of `config`.
#[derive(Debug, Clone, Copy, PartialEq, Eq, Structural)]
pub enum ConfigCommand {
    Init,
}

/// Arguments of `config`.
#[derive(Debug, Clone, Copy, PartialEq, Eq, Structural)]
pub struct ConfigArgs {
    pub command: Option<ConfigCommand>,
}

/// The output formats a command can print.
#[derive(Debug, Clone, Copy, PartialEq, Eq, Structural)]
pub enum OutputFormat {
    Table,
    Json,
}

/// A grouping requested with `--group-by`.
#[derive(Debug, Clone, Copy, PartialEq, Eq, Structural)]
pub enum GroupBy {
    Language,
    Category,
    Dir,
    File,
}

/// A language accepted by `--languages`.
#[derive(Debug, Clone, Copy, PartialEq, Eq, Structural)]
pub enum LanguageArg {
    Shell,
    Sql,
    Go,
    Html,
    Css,
    Rust,
    Python,
    Javascript,
    Typescript,
    Markdown,
    Config,
    Jsx,
    Tsx,
}

/// The language a `--languages` value stands for.
pub open spec fn arg_language(value: LanguageArg) -> Language {
    match value {
        LanguageArg::Shell => Language::Shell,
        LanguageArg::Sql => Language::Sql,
        LanguageArg::Go => Language::Go,
        LanguageArg::Html => Language::Html,
        LanguageArg::Css => Language::Css,
        LanguageArg::Rust => Language::Rust,
        LanguageArg::Python => Language::Python,
        LanguageArg::Javascript => Language::JavaScript,
        LanguageArg::Typescript => Language::TypeScript,
        LanguageArg::Markdown => Language::Markdown,
        LanguageArg::Config => Language::Config,
        LanguageArg::Jsx => Language::Jsx,
        LanguageArg::Tsx => Language::Tsx,
    }
}

impl From<LanguageArg> for Language {
    fn from(value: LanguageArg) -> (r: Language) {
        match value {
            LanguageArg::Shell => Language::Shell,
            LanguageArg::Sql => Language::Sql,
            LanguageArg::Go => Language::Go,
            LanguageArg::Html => Language::Html,
            LanguageArg::Css => Language::Css,
            LanguageArg::Rust => Language::Rust,
            LanguageArg::Python => Language::Python,
            LanguageArg::Javascript => Language::JavaScript,
            LanguageArg::Typescript => Language::TypeScript,
            LanguageArg::Markdown => Language::Markdown,
            LanguageArg::Config => Language::Config,
            LanguageArg::Jsx => Language::Jsx,
            LanguageArg::Tsx => Language::Tsx,
        }
    }
}

impl vstd::std_specs::convert::FromSpecImpl<LanguageArg> for Language {
    open spec fn obeys_from_spec() -> bool {
        true
    }

    open spec fn from_spec(value: LanguageArg) -> Language {
        arg_language(value)
    }
}

/// The arguments of `scan` that decide what is counted and shown.
#[derive(Debug, Clone, PartialEq, Eq)]
pub struct ScanArgs {
    pub path: String,
    pub format: Option<OutputFormat>,
    pub group_by: Vec<GroupBy>,
    pub top_files: Option<usize>,
    pub no_top_files: bool,
    pub top_dirs: Option<usize>,
    pub no_top_dirs: bool,
    pub list_unsupported: Option<usize>,
    pub languages: Vec<LanguageArg>,
    pub exclude: Vec<String>,
    pub no_tests: bool,
    pub generated: bool,
    pub no_vendor: bool,
    pub config: Option<String>,
    pub no_gitignore: bool,
    pub hidden: bool,
}

/// The words that name a subcommand or ask for help or the version.
pub open spec fn is_command_word(word: Seq<char>) -> bool {
    ||| word == "scan"@
    ||| word == "detect"@
    ||| word == "explain"@
    ||| word == "config"@
    ||| word == "help"@
    ||| word == "-h"@
    ||| word == "--help"@
    ||| word == "-V"@
    ||| word == "--version"@
}

/// Whether a first argument after the program name leaves the command line as
/// it is: a subcommand or a help or version flag. An argument that is not UTF-8
/// text is given as `None`.
pub open spec fn names_command(arg: Option<String>) -> bool {
    match arg {
        Some(word) => is_command_word(word@),
        None => false,
    }
}

/// A bare invocation means `scan`: unless the first argument after the program
/// name names a command.
pub open spec fn injects_scan(args: Seq<Option<String>>) -> bool {
    args.len() == 0 || !names_command(args[0])
}

fn word_is(word: &str, expected: &str) -> (r: bool)
    ensures
        r == (word@ == expected@),
{
    crate::text::str_eq(word, expected)
}

fn is_command_arg(arg: &Option<String>) -> (r: bool)
    ensures
        r == names_command(*arg),
{
    match arg {
        Some(word) => {
            let w = word.as_str();
            word_is(w, "scan") || word_is(w, "detect") || word_is(w, "explain") || word_is(w, "config")
                || word_is(w, "help") || word_is(w, "-h") || word_is(w, "--help") || word_is(w, "-V")
                || word_is(w, "--version")
        },
        None => false,
    }
}

pub fn should_inject_default_scan(args: &[Option<String>]) -> (r: bool)
    ensures
        r == injects_scan(args@),
{
    if args.len() == 0 {
        return true;
    }
    !is_command_arg(&args[0])
}

/// The command line with `scan` put after the program name where a bare
/// invocation means it. `texts` gives each argument's text, `None` where it is
/// not UTF-8.
pub fn normalize_args<T>(args: Vec<T>, texts: &Vec<Option<String>>, scan: T) -> (r: Vec<T>)
    requires
        args@.len() == texts@.len(),
    ensures
        r@ == normalized(args@, texts@, scan),
{
    let mut args = args;
    if args.len() == 0 {
        return args;
    }
    let inject = if texts.len() == 1 {
        true
    } else {
        !is_command_arg(&texts[1])
    };
    assert(texts@.skip(1).len() > 0 ==> texts@.skip(1)[0] == texts@[1]);
    if inject {
        args.insert(1, scan);
    }
    args
}

/// The command line `normalize_args` gives.
pub open spec fn normalized<T>(args: Seq<T>, texts: Seq<Option<String>>, scan: T) -> Seq<T> {
    if args.len() > 0 && injects_scan(texts.skip(1)) {
        args.insert(1, scan)
    } else {
        args
    }
}

/// Normalising an already normalised command line changes nothing: once `scan`
/// has been put in, the line names a command.
pub proof fn lemma_normalize_idempotent(texts: Seq<Option<String>>, scan: Option<String>)
    requires
        scan matches Some(s) && s@ == "scan"@,
    ensures
        normalized(normalized(texts, texts, scan), normalized(texts, texts, scan), scan) == normalized(
            texts,
            texts,
            scan,
        ),
{
    let n = normalized(texts, texts, scan);
    if texts.len() > 0 && injects_scan(texts.skip(1)) {
        assert(n.skip(1)[0] == scan);
        assert(names_command(scan));
    }
}

fn languages_of(args: &Vec<LanguageArg>) -> (r: Vec<Language>)
    ensures
        r@ == args@.map_values(|a: LanguageArg| arg_language(a)),
{
    let mut out: Vec<Language> = Vec::new();
    let mut i: usize = 0;
    while i < args.len()
        invariant
            i <= args.len(),
            out@ == args@.take(i as int).map_values(|a: LanguageArg| arg_language(a)),
        decreases args.len() - i,
    {
        out.push(Language::from(args[i]));
        i += 1;
        assert(out@ =~= args@.take(i as int).map_values(|a: LanguageArg| arg_language(a)));
    }
    assert(args@.take(args@.len() as int) =~= args@);
    out
}

fn copy_strings(v: &Vec<String>) -> (r: Vec<String>)
    ensures
        r@ == v@,
{
    let mut out: Vec<String> = Vec::new();
    let mut i: usize = 0;
    while i < v.len()
        invariant
            i <= v.len(),
            out@ == v@.take(i as int),
        decreases v.len() - i,
    {
        out.push(v[i].clone());
        i += 1;
        assert(out@ =~= v@.take(i as int));
    }
    assert(v@.take(v@.len() as int) =~= v@);
    out
}

/// `Some(b)` when a flag was given, else `None`.
pub open spec fn flag(given: bool, b: bool) -> Option<bool> {
    if given {
        Some(b)
    } else {
        None
    }
}

/// The scan overrides the flags give: the languages and excludes when any were
/// given, and each switch that was passed.
pub open spec fn overrides_of(o: ScanOverrides, args: ScanArgs) -> bool {
    &&& languages_view(o.languages) == if args.languages@.len() > 0 {
        Some(args.languages@.map_values(|a: LanguageArg| arg_language(a)))
    } else {
        None
    }
    &&& match o.exclude_patterns {
        Some(p) => args.exclude@.len() > 0 && strings_view(p) == strings_view(args.exclude),
        None => args.exclude@.len() == 0,
    }
    &&& o.hidden == flag(args.hidden, true)
    &&& o.respect_gitignore == flag(args.no_gitignore, false)
    &&& o.include_tests == flag(args.no_tests, false)
    &&& o.include_generated == flag(args.generated, true)
    &&& o.include_vendor == flag(args.no_vendor, false)
}

pub fn scan_overrides(args: &ScanArgs) -> (o: ScanOverrides)
    ensures
        overrides_of(o, *args),
{
    ScanOverrides {
        languages: if args.languages.len() > 0 {
            Some(languages_of(&args.languages))
        } else {
            None
        },
        exclude_patterns: if args.exclude.len() > 0 {
            Some(copy_strings(&args.exclude))
        } else {
            None
        },
        hidden: if args.hidden {
            Some(true)
        } else {
            None
        },
        respect_gitignore: if args.no_gitignore {
            Some(false)
        } else {
            None
        },
        include_tests: if args.no_tests {
            Some(false)
        } else {
            None
        },
        include_generated: if args.generated {
            Some(true)
        } else {
            None
        },
        include_vendor: if args.no_vendor {
            Some(false)
        } else {
            None
        },
    }
}

pub open spec fn spec_report_format(value: OutputFormat) -> ReportFormat {
    match value {
        OutputFormat::Table => ReportFormat::Table,
        OutputFormat::Json => ReportFormat::Json,
    }
}

pub open spec fn spec_format_from_config(value: ReportFormat) -> OutputFormat {
    match value {
        ReportFormat::Json => OutputFormat::Json,
        ReportFormat::Table => OutputFormat::Table,
    }
}

pub open spec fn spec_report_group_by(value: GroupBy) -> ReportGroupBy {
    match value {
        GroupBy::Language => ReportGroupBy::Language,
        GroupBy::Category => ReportGroupBy::Category,
        GroupBy::Dir => ReportGroupBy::Dir,
        GroupBy::File => ReportGroupBy::File,
    }
}

pub open spec fn spec_scan_group_by(value: GroupBy) -> ScanGroupBy {
    match value {
        GroupBy::Language => ScanGroupBy::Language,
        GroupBy::Category => ScanGroupBy::Category,
        GroupBy::Dir => ScanGroupBy::Dir,
        GroupBy::File => ScanGroupBy::File,
    }
}

pub open spec fn spec_scan_group_by_from_config(value: ReportGroupBy) -> ScanGroupBy {
    match value {
        ReportGroupBy::Language => ScanGroupBy::Language,
        ReportGroupBy::Category => ScanGroupBy::Category,
        ReportGroupBy::Dir => ScanGroupBy::Dir,
        ReportGroupBy::File => ScanGroupBy::File,
    }
}

pub fn format_from_config(value: ReportFormat) -> (r: OutputFormat)
    ensures
        r == spec_format_from_config(value),
{
    match value {
        ReportFormat::Json => OutputFormat::Json,
        ReportFormat::Table => OutputFormat::Table,
    }
}

pub open spec fn format_name(value: OutputFormat) -> Seq<char> {
    match value {
        OutputFormat::Table => "table"@,
        OutputFormat::Json => "json"@,
    }
}

pub fn output_format_name(value: OutputFormat) -> (r: String)
    ensures
        r@ == format_name(value),
{
    match value {
        OutputFormat::Table => "table".to_owned(),
        OutputFormat::Json => "json".to_owned(),
    }
}

pub fn report_format(value: OutputFormat) -> (r: ReportFormat)
    ensures
        r == spec_report_format(value),
{
    match value {
        OutputFormat::Table => ReportFormat::Table,
        OutputFormat::Json => ReportFormat::Json,
    }
}

pub fn report_group_by(value: GroupBy) -> (r: ReportGroupBy)
    ensures
        r == spec_report_group_by(value),
{
    match value {
        GroupBy::Language => ReportGroupBy::Language,
        GroupBy::Category => ReportGroupBy::Category,
        GroupBy::Dir => ReportGroupBy::Dir,
        GroupBy::File => ReportGroupBy::File,
    }
}

pub fn scan_group_by(value: GroupBy) -> (r: ScanGroupBy)
    ensures
        r == spec_scan_group_by(value),
{
    match value {
        GroupBy::Language => ScanGroupBy::Language,
        GroupBy::Category => ScanGroupBy::Category,
        GroupBy::Dir => ScanGroupBy::Dir,
        GroupBy::File => ScanGroupBy::File,
    }
}

pub fn scan_group_by_from_config(value: ReportGroupBy) -> (r: ScanGroupBy)
    ensures
        r == spec_scan_group_by_from_config(value),
{
    match value {
        ReportGroupBy::Language => ScanGroupBy::Language,
        ReportGroupBy::Category => ScanGroupBy::Category,
        ReportGroupBy::Dir => ScanGroupBy::Dir,
        ReportGroupBy::File => ScanGroupBy::File,
    }
}

/// A `--top-*` limit that switches its section off: the `--no-top-*` flag, or zero.
pub open spec fn limit_disabled(no_flag: bool, limit: Option<usize>) -> bool {
    no_flag || limit == Some(0usize)
}

fn is_disabled(no_flag: bool, limit: Option<usize>) -> (r: bool)
    ensures
        r == limit_disabled(no_flag, limit),
{
    no_flag || match limit {
        Some(n) => n == 0,
        None => false,
    }
}

/// The report overrides the flags give.
pub open spec fn report_overrides_of(o: ReportOverrides, args: ScanArgs) -> bool {
    &&& o.format == match args.format {
        Some(f) => Some(spec_report_format(f)),
        None => None,
    }
    &&& o.top_files == positive_limit(args.top_files)
    &&& o.top_dirs == positive_limit(args.top_dirs)
    &&& o.disable_top_files == limit_disabled(args.no_top_files, args.top_files)
    &&& o.disable_top_dirs == limit_disabled(args.no_top_dirs, args.top_dirs)
    &&& match o.group_by {
        Some(g) => args.group_by@.len() > 0 && g@ == args.group_by@.map_values(
            |b: GroupBy| spec_report_group_by(b),
        ),
        None => args.group_by@.len() == 0,
    }
}

fn report_groupings(args: &Vec<GroupBy>) -> (r: Vec<ReportGroupBy>)
    ensures
        r@ == args@.map_values(|b: GroupBy| spec_report_group_by(b)),
{
    let mut out: Vec<ReportGroupBy> = Vec::new();
    let mut i: usize = 0;
    while i < args.len()
        invariant
            i <= args.len(),
            out@ == args@.take(i as int).map_values(|b: GroupBy| spec_report_group_by(b)),
        decreases args.len() - i,
    {
        out.push(report_group_by(args[i]));
        i += 1;
        assert(out@ =~= args@.take(i as int).map_values(|b: GroupBy| spec_report_group_by(b)));
    }
    assert(args@.take(args@.len() as int) =~= args@);
    out
}

pub fn report_overrides(args: &ScanArgs) -> (o: ReportOverrides)
    ensures
        report_overrides_of(o, *args),
{
    ReportOverrides {
        format: match args.format {
            Some(f) => Some(report_format(f)),
            None => None,
        },
        top_files: crate::config::normalize_top_limit(args.top_files),
        top_dirs: crate::config::normalize_top_limit(args.top_dirs),
        disable_top_files: is_disabled(args.no_top_files, args.top_files),
        disable_top_dirs: is_disabled(args.no_top_dirs, args.top_dirs),
        group_by: if args.group_by.len() > 0 {
            Some(report_groupings(&args.group_by))
        } else {
            None
        },
    }
}

/// The groupings a scan shows: the flags' when any were given, else the
/// report settings'.
pub open spec fn groupings_for(args: ScanArgs, report: ReportConfig) -> Seq<ScanGroupBy> {
    if args.group_by@.len() > 0 {
        args.group_by@.map_values(|b: GroupBy| spec_scan_group_by(b))
    } else {
        report.group_by@.map_values(|b: ReportGroupBy| spec_scan_group_by_from_config(b))
    }
}

pub fn default_group_by(args: &ScanArgs, report: &ReportConfig) -> (r: Vec<ScanGroupBy>)
    ensures
        r@ == groupings_for(*args, *report),
{
    let mut out: Vec<ScanGroupBy> = Vec::new();
    if args.group_by.len() > 0 {
        let mut i: usize = 0;
        while i < args.group_by.len()
            invariant
                i <= args.group_by.len(),
                out@ == args.group_by@.take(i as int).map_values(|b: GroupBy| spec_scan_group_by(b)),
            decreases args.group_by.len() - i,
        {
            out.push(scan_group_by(args.group_by[i]));
            i += 1;
            assert(out@ =~= args.group_by@.take(i as int).map_values(|b: GroupBy| spec_scan_group_by(b)));
        }
        assert(args.group_by@.take(args.group_by@.len() as int) =~= args.group_by@);
        return out;
    }
    let mut i: usize = 0;
    while i < report.group_by.len()
        invariant
            i <= report.group_by.len(),
            out@ == report.group_by@.take(i as int).map_values(
                |b: ReportGroupBy| spec_scan_group_by_from_config(b),
            ),
        decreases report.group_by.len() - i,
    {
        out.push(scan_group_by_from_config(report.group_by[i]));
        i += 1;
        assert(out@ =~= report.group_by@.take(i as int).map_values(
            |b: ReportGroupBy| spec_scan_group_by_from_config(b),
        ));
    }
    assert(report.group_by@.take(report.group_by@.len() as int) =~= report.group_by@);
    out
}

/// A top-section limit: none when switched off, else the flag's positive limit,
/// else the report settings'.
pub open spec fn limit_for(no_flag: bool, given: Option<usize>, configured: Option<usize>) -> Option<usize> {
    if limit_disabled(no_flag, given) {
        None
    } else if positive_limit(given) is Some {
        positive_limit(given)
    } else {
        configured
    }
}

pub fn default_top_files(args: &ScanArgs, report: &ReportConfig) -> (r: Option<usize>)
    ensures
        r == limit_for(args.no_top_files, args.top_files, report.top_files),
{
    if is_disabled(args.no_top_files, args.top_files) {
        return None;
    }
    match crate::config::normalize_top_limit(args.top_files) {
        Some(n) => Some(n),
        None => report.top_files,
    }
}

pub fn default_top_dirs(args: &ScanArgs, report: &ReportConfig) -> (r: Option<usize>)
    ensures
        r == limit_for(args.no_top_dirs, args.top_dirs, report.top_dirs),
{
    if is_disabled(args.no_top_dirs, args.top_dirs) {
        return None;
    }
    match crate::config::normalize_top_limit(args.top_dirs) {
        Some(n) => Some(n),
        None => report.top_dirs,
    }
}

/// How a scan is rendered: its path and format, the groupings and limits of the
/// flags and report settings, and the scan's filter switches.
pub open spec fn render_options_of(
    r: ScanRenderOptions,
    args: ScanArgs,
    scan: ScanOptions,
    report: ReportConfig,
    format: OutputFormat,
) -> bool {
    &&& r.path@ == args.path@
    &&& r.format@ == format_name(format)
    &&& r.group_by@ == groupings_for(args, report)
    &&& r.top_files == limit_for(args.no_top_files, args.top_files, report.top_files)
    &&& r.top_dirs == limit_for(args.no_top_dirs, args.top_dirs, report.top_dirs)
    &&& r.respect_gitignore == scan.respect_gitignore
    &&& r.include_generated == scan.include_generated
    &&& r.include_vendor == scan.include_vendor
    &&& r.include_tests == scan.include_tests
}

pub fn render_options(args: &ScanArgs, scan: &ScanOptions, report: &ReportConfig, report_format: OutputFormat) -> (r:
    ScanRenderOptions)
    ensures
        render_options_of(r, *args, *scan, *report, report_format),
{
    ScanRenderOptions {
        path: args.path.clone(),
        format: output_format_name(report_format),
        group_by: default_group_by(args, report),
        top_files: default_top_files(args, report),
        top_dirs: default_top_dirs(args, report),
        respect_gitignore: scan.respect_gitignore,
        include_generated: scan.include_generated,
        include_vendor: scan.include_vendor,
        include_tests: scan.include_tests,
    }
}

/// What a scan does with its arguments and configuration: the scan options,
/// the output format and the render options.
pub struct ScanPlan {
    pub options: ScanOptions,
    pub format: OutputFormat,
    pub render: ScanRenderOptions,
}

/// The plan of a scan: the configuration merged with the flags' overrides and
/// the unsupported-sample limit; the flag's format, else the configuration's;
/// and the render options from the merged report settings.
pub open spec fn plan_of(p: ScanPlan, args: ScanArgs, config: ConfigFile) -> bool {
    &&& exists|o: ScanOptions, v: ScanOverrides|
        #[trigger] overrides_of(v, args) && #[trigger] merged_options(o, config, v) && p.options == ScanOptions {
            unsupported_sample_limit: args.list_unsupported,
            ..o
        }
    &&& p.format == match args.format {
        Some(f) => f,
        None => spec_format_from_config(config.report.format),
    }
    &&& exists|r: ReportConfig, v: ReportOverrides|
        #[trigger] report_overrides_of(v, args) && #[trigger] merged_report(r, config, v) && render_options_of(
            p.render,
            args,
            p.options,
            r,
            p.format,
        )
}

pub fn plan_scan(args: &ScanArgs, config: &ConfigFile) -> (p: ScanPlan)
    ensures
        plan_of(p, *args, *config),
{
    let overrides = scan_overrides(args);
    let merged = merge_scan_options(config, &overrides);
    let ghost merged_view = merged;
    let options = ScanOptions { unsupported_sample_limit: args.list_unsupported, ..merged };
    let format = match args.format {
        Some(f) => f,
        None => format_from_config(config.report.format),
    };
    let report_settings = merge_report_config(config, &report_overrides(args));
    let render = render_options(args, &options, &report_settings, format);
    ScanPlan { options, format, render }
}

/// A top section that a `--no-top-*` flag or a zero limit switches off is not
/// shown, and no shown section has a limit of zero.
pub proof fn lemma_plan_limits(p: ScanPlan, args: ScanArgs, config: ConfigFile)
    requires
        plan_of(p, args, config),
    ensures
        limit_disabled(args.no_top_files, args.top_files) ==> p.render.top_files is None,
        limit_disabled(args.no_top_dirs, args.top_dirs) ==> p.render.top_dirs is None,
        p.render.top_files != Some(0usize),
        p.render.top_dirs != Some(0usize),
{
    let (r, v) = choose|r: ReportConfig, v: ReportOverrides|
        #[trigger] report_overrides_of(v, args) && #[trigger] merged_report(r, config, v) && render_options_of(
            p.render,
            args,
            p.options,
            r,
            p.format,
        );
    crate::config::lemma_merged_limits_positive(r, config, v);
}

/// A failure of a command, with its message.
#[derive(Debug, Clone, PartialEq, Eq)]
pub enum AppError {
    InvalidInput(String),
    UnreadablePath(String),
    UnsupportedExplainTarget(String),
    Runtime(String),
}

pub open spec fn spec_exit_code(e: AppError) -> u8 {
    match e {
        AppError::Runtime(_) => 1,
        AppError::InvalidInput(_) => 2,
        AppError::UnreadablePath(_) => 3,
        AppError::UnsupportedExplainTarget(_) => 4,
    }
}

impl AppError {
    pub fn invalid_input(message: String) -> (e: Self)
        ensures
            e == AppError::InvalidInput(message),
    {
        AppError::InvalidInput(message)
    }

    pub fn unreadable_path(message: String) -> (e: Self)
        ensures
            e == AppError::UnreadablePath(message),
    {
        AppError::UnreadablePath(message)
    }

    pub fn unsupported_explain_target(message: String) -> (e: Self)
        ensures
            e == AppError::UnsupportedExplainTarget(message),
    {
        AppError::UnsupportedExplainTarget(message)
    }

    pub fn runtime(message: String) -> (e: Self)
        ensures
            e == AppError::Runtime(message),
    {
        AppError::Runtime(message)
    }

    /// The process exit code: 1 for a runtime failure, 2 for invalid input, 3 for
    /// an unreadable path, 4 for a file `explain` cannot classify.
    pub fn exit_code(&self) -> (r: u8)
        ensures
            r == spec_exit_code(*self),
    {
        match self {
            AppError::Runtime(_) => 1,
            AppError::InvalidInput(_) => 2,
            AppError::UnreadablePath(_) => 3,
            AppError::UnsupportedExplainTarget(_) => 4,
        }
    }
}

/// Each kind of failure exits with its own code.
pub proof fn lemma_exit_codes_distinct(a: AppError, b: AppError)
    ensures
        spec_exit_code(a) == spec_exit_code(b) <==> (
        (a is Runtime && b is Runtime) || (a is InvalidInput && b is InvalidInput) || (a is UnreadablePath
            && b is UnreadablePath) || (a is UnsupportedExplainTarget && b is UnsupportedExplainTarget)),
        spec_exit_code(a) != 0,
{
}

/// The first line `config` prints: where the configuration came from.
pub open spec fn source_comment(path: Option<Seq<char>>) -> Seq<char> {
    match path {
        Some(p) => "# source: "@ + p,
        None => "# source: built-in defaults (no .rloc.toml found)"@,
    }
}

pub fn config_source_comment(path: Option<&str>) -> (r: String)
    ensures
        r@ == source_comment(
            match path {
                Some(p) => Some(p@),
                None => None,
            },
        ),
{
    match path {
        Some(p) => crate::text::concat2("# source: ", p),
        None => "# source: built-in defaults (no .rloc.toml found)".to_owned(),
    }
}

} // verus!
