//! The configuration file's settings, their defaults, and how command-line
//! overrides combine with them into scan options and report settings.
use vstd::prelude::*;

use crate::paths::{join, path_join};
use crate::types::{is_default_options, ClassificationOptions, Language, ScanOptions};

verus! {

#[derive(Debug, Clone, Copy, PartialEq, Eq, Structural)]
pub struct ScanConfig {
    pub respect_gitignore: bool,
    pub hidden: bool,
}

impl Default for ScanConfig {
    fn default() -> (c: Self)
        ensures
            c.respect_gitignore,
            !c.hidden,
    {
        ScanConfig { respect_gitignore: true, hidden: false }
    }
}

#[derive(Debug, Clone, PartialEq, Eq)]
pub struct FiltersConfig {
    pub exclude: Vec<String>,
    pub include_tests: bool,
    pub include_generated: bool,
    pub include_vendor: bool,
    pub generated_patterns: Vec<String>,
    pub vendor_patterns: Vec<String>,
}

impl Default for FiltersConfig {
    fn default() -> (c: Self)
        ensures
            c.exclude@.len() == 0,
            c.include_tests,
            !c.include_generated,
            !c.include_vendor,
            c.generated_patterns@.len() == 0,
            c.vendor_patterns@.len() == 0,
    {
        FiltersConfig {
            exclude: Vec::new(),
            include_tests: true,
            include_generated: false,
            include_vendor: false,
            generated_patterns: Vec::new(),
            vendor_patterns: Vec::new(),
        }
    }
}

#[derive(Debug, Clone, Copy, PartialEq, Eq, Structural)]
pub struct ClassificationConfig {
    pub count_doc_comments: bool,
    pub count_docstrings_as_comments: bool,
    pub mixed_lines_as_code: bool,
}

impl Default for ClassificationConfig {
    fn default() -> (c: Self)
        ensures
            c.count_doc_comments,
            c.count_docstrings_as_comments,
            c.mixed_lines_as_code,
    {
        ClassificationConfig {
            count_doc_comments: true,
            count_docstrings_as_comments: true,
            mixed_lines_as_code: true,
        }
    }
}

#[derive(Debug, Clone, Copy, PartialEq, Eq, Structural)]
pub enum ReportFormat {
    Table,
    Json,
}

impl Default for ReportFormat {
    fn default() -> (f: Self)
        ensures
            f == ReportFormat::Table,
    {
        ReportFormat::Table
    }
}

#[derive(Debug, Clone, Copy, PartialEq, Eq, Structural)]
pub enum ReportGroupBy {
    Language,
    Category,
    Dir,
    File,
}

#[derive(Debug, Clone, PartialEq, Eq)]
pub struct ReportConfig {
    pub format: ReportFormat,
    pub group_by: Vec<ReportGroupBy>,
    pub top_files: Option<usize>,
    pub top_dirs: Option<usize>,
}

impl Default for ReportConfig {
    fn default() -> (c: Self)
        ensures
            c.format == ReportFormat::Table,
            c.group_by@ == seq![ReportGroupBy::Language],
            c.top_files == Some(10usize),
            c.top_dirs == Some(10usize),
    {
        let mut group_by: Vec<ReportGroupBy> = Vec::new();
        group_by.push(ReportGroupBy::Language);
        ReportConfig { format: ReportFormat::Table, group_by, top_files: Some(10), top_dirs: Some(10) }
    }
}

/// The whole configuration file.
#[derive(Debug, Clone, PartialEq, Eq)]
pub struct ConfigFile {
    pub scan: ScanConfig,
    pub filters: FiltersConfig,
    pub classification: ClassificationConfig,
    pub report: ReportConfig,
}

impl Default for ConfigFile {
    fn default() -> (c: Self)
        ensures
            c.scan.respect_gitignore && !c.scan.hidden,
            c.filters.exclude@.len() == 0 && c.filters.include_tests && !c.filters.include_generated
                && !c.filters.include_vendor && c.filters.generated_patterns@.len() == 0
                && c.filters.vendor_patterns@.len() == 0,
            c.classification.count_doc_comments && c.classification.count_docstrings_as_comments
                && c.classification.mixed_lines_as_code,
            c.report.format == ReportFormat::Table && c.report.group_by@ == seq![ReportGroupBy::Language]
                && c.report.top_files == Some(10usize) && c.report.top_dirs == Some(10usize),
    {
        ConfigFile {
            scan: ScanConfig::default(),
            filters: FiltersConfig::default(),
            classification: ClassificationConfig::default(),
            report: ReportConfig::default(),
        }
    }
}

/// Command-line settings that replace (or, for excludes, extend) the file's.
#[derive(Debug, Clone, PartialEq, Eq)]
pub struct ScanOverrides {
    pub languages: Option<Vec<Language>>,
    pub exclude_patterns: Option<Vec<String>>,
    pub hidden: Option<bool>,
    pub respect_gitignore: Option<bool>,
    pub include_tests: Option<bool>,
    pub include_generated: Option<bool>,
    pub include_vendor: Option<bool>,
}

impl Default for ScanOverrides {
    fn default() -> (o: Self)
        ensures
            o.languages is None,
            o.exclude_patterns is None,
            o.hidden is None,
            o.respect_gitignore is None,
            o.include_tests is None,
            o.include_generated is None,
            o.include_vendor is None,
    {
        ScanOverrides {
            languages: None,
            exclude_patterns: None,
            hidden: None,
            respect_gitignore: None,
            include_tests: None,
            include_generated: None,
            include_vendor: None,
        }
    }
}

/// Command-line report settings.
#[derive(Debug, Clone, PartialEq, Eq)]
pub struct ReportOverrides {
    pub format: Option<ReportFormat>,
    pub top_files: Option<usize>,
    pub top_dirs: Option<usize>,
    pub disable_top_files: bool,
    pub disable_top_dirs: bool,
    pub group_by: Option<Vec<ReportGroupBy>>,
}

impl Default for ReportOverrides {
    fn default() -> (o: Self)
        ensures
            o.format is None,
            o.top_files is None,
            o.top_dirs is None,
            !o.disable_top_files,
            !o.disable_top_dirs,
            o.group_by is None,
    {
        ReportOverrides {
            format: None,
            top_files: None,
            top_dirs: None,
            disable_top_files: false,
            disable_top_dirs: false,
            group_by: None,
        }
    }
}

pub open spec fn strings_view(v: Vec<String>) -> Seq<Seq<char>> {
    v@.map_values(|s: String| s@)
}

/// An optional language list as plain values.
pub open spec fn languages_view(l: Option<Vec<Language>>) -> Option<Seq<Language>> {
    match l {
        Some(v) => Some(v@),
        None => None,
    }
}

fn copy_languages(v: &Vec<Language>) -> (r: Vec<Language>)
    ensures
        r@ == v@,
{
    let mut out: Vec<Language> = Vec::new();
    let mut i: usize = 0;
    while i < v.len()
        invariant
            i <= v.len(),
            out@ == v@.take(i as int),
        decreases v.len() - i,
    {
        out.push(v[i]);
        i += 1;
        assert(out@ =~= v@.take(i as int));
    }
    assert(v@.take(v@.len() as int) =~= v@);
    out
}

/// The scan options a configuration gives: its scan, filter and classification
/// settings, and no language filter or unsupported samples.
pub open spec fn options_from(o: ScanOptions, c: ConfigFile) -> bool {
    &&& o.languages is None
    &&& o.hidden == c.scan.hidden
    &&& o.respect_gitignore == c.scan.respect_gitignore
    &&& o.include_tests == c.filters.include_tests
    &&& o.include_generated == c.filters.include_generated
    &&& o.include_vendor == c.filters.include_vendor
    &&& strings_view(o.exclude_patterns) == strings_view(c.filters.exclude)
    &&& strings_view(o.generated_patterns) == strings_view(c.filters.generated_patterns)
    &&& strings_view(o.vendor_patterns) == strings_view(c.filters.vendor_patterns)
    &&& o.unsupported_sample_limit is None
    &&& o.classification.count_doc_comments == c.classification.count_doc_comments
    &&& o.classification.count_docstrings_as_comments == c.classification.count_docstrings_as_comments
    &&& o.classification.mixed_lines_as_code == c.classification.mixed_lines_as_code
}

fn copy_strings(v: &Vec<String>) -> (r: Vec<String>)
    ensures
        r@ == v@,
{
    let mut out: Vec<String> = Vec::new();
    let mut i: usize = 0;
    while i < v.len()
        invariant
            i <= v.len(),
            out@ == v@.take(i as int),
        decreases v.len() - i,
    {
        out.push(v[i].clone());
        i += 1;
        assert(out@ =~= v@.take(i as int));
    }
    assert(v@.take(v@.len() as int) =~= v@);
    out
}

pub fn scan_options_from_config(config: &ConfigFile) -> (o: ScanOptions)
    ensures
        options_from(o, *config),
{
    let mut options = ScanOptions::default();
    options.hidden = config.scan.hidden;
    options.respect_gitignore = config.scan.respect_gitignore;
    options.include_tests = config.filters.include_tests;
    options.include_generated = config.filters.include_generated;
    options.include_vendor = config.filters.include_vendor;
    options.exclude_patterns = copy_strings(&config.filters.exclude);
    options.generated_patterns = copy_strings(&config.filters.generated_patterns);
    options.vendor_patterns = copy_strings(&config.filters.vendor_patterns);
    options.classification = ClassificationOptions {
        count_doc_comments: config.classification.count_doc_comments,
        count_docstrings_as_comments: config.classification.count_docstrings_as_comments,
        mixed_lines_as_code: config.classification.mixed_lines_as_code,
    };
    options
}

pub open spec fn override_bool(value: bool, o: Option<bool>) -> bool {
    match o {
        Some(b) => b,
        None => value,
    }
}

/// The scan options of a configuration with command-line overrides: a language
/// list and each switch replace the file's; exclude patterns are added after the
/// file's.
pub open spec fn merged_options(o: ScanOptions, c: ConfigFile, v: ScanOverrides) -> bool {
    &&& languages_view(o.languages) == languages_view(v.languages)
    &&& o.hidden == override_bool(c.scan.hidden, v.hidden)
    &&& o.respect_gitignore == override_bool(c.scan.respect_gitignore, v.respect_gitignore)
    &&& o.include_tests == override_bool(c.filters.include_tests, v.include_tests)
    &&& o.include_generated == override_bool(c.filters.include_generated, v.include_generated)
    &&& o.include_vendor == override_bool(c.filters.include_vendor, v.include_vendor)
    &&& strings_view(o.exclude_patterns) == match v.exclude_patterns {
        Some(extra) => strings_view(c.filters.exclude) + strings_view(extra),
        None => strings_view(c.filters.exclude),
    }
    &&& strings_view(o.generated_patterns) == strings_view(c.filters.generated_patterns)
    &&& strings_view(o.vendor_patterns) == strings_view(c.filters.vendor_patterns)
    &&& o.unsupported_sample_limit is None
    &&& o.classification.count_doc_comments == c.classification.count_doc_comments
    &&& o.classification.count_docstrings_as_comments == c.classification.count_docstrings_as_comments
    &&& o.classification.mixed_lines_as_code == c.classification.mixed_lines_as_code
}

pub fn merge_scan_options(config: &ConfigFile, overrides: &ScanOverrides) -> (o: ScanOptions)
    ensures
        merged_options(o, *config, *overrides),
{
    let mut options = scan_options_from_config(config);
    if let Some(languages) = &overrides.languages {
        options.languages = Some(copy_languages(languages));
    }
    if let Some(extra) = &overrides.exclude_patterns {
        let mut more = copy_strings(extra);
        let ghost before = options.exclude_patterns@;
        options.exclude_patterns.append(&mut more);
        assert(strings_view(options.exclude_patterns) =~= before.map_values(|s: String| s@) + strings_view(*extra));
    }
    if let Some(hidden) = overrides.hidden {
        options.hidden = hidden;
    }
    if let Some(respect_gitignore) = overrides.respect_gitignore {
        options.respect_gitignore = respect_gitignore;
    }
    if let Some(include_tests) = overrides.include_tests {
        options.include_tests = include_tests;
    }
    if let Some(include_generated) = overrides.include_generated {
        options.include_generated = include_generated;
    }
    if let Some(include_vendor) = overrides.include_vendor {
        options.include_vendor = include_vendor;
    }
    options
}

/// A limit of zero means none.
pub open spec fn positive_limit(limit: Option<usize>) -> Option<usize> {
    match limit {
        Some(n) => if n > 0 {
            Some(n)
        } else {
            None
        },
        None => None,
    }
}

pub fn normalize_top_limit(limit: Option<usize>) -> (r: Option<usize>)
    ensures
        r == positive_limit(limit),
{
    match limit {
        Some(n) => if n > 0 {
            Some(n)
        } else {
            None
        },
        None => None,
    }
}

/// The report settings of a configuration with command-line overrides.
pub open spec fn merged_report(r: ReportConfig, c: ConfigFile, v: ReportOverrides) -> bool {
    &&& r.format == match v.format {
        Some(f) => f,
        None => c.report.format,
    }
    &&& r.top_files == if v.disable_top_files {
        None
    } else if positive_limit(v.top_files) is Some {
        positive_limit(v.top_files)
    } else {
        positive_limit(c.report.top_files)
    }
    &&& r.top_dirs == if v.disable_top_dirs {
        None
    } else if positive_limit(v.top_dirs) is Some {
        positive_limit(v.top_dirs)
    } else {
        positive_limit(c.report.top_dirs)
    }
    &&& r.group_by@ == match v.group_by {
        Some(g) => g@,
        None => c.report.group_by@,
    }
}

fn copy_group_by(v: &Vec<ReportGroupBy>) -> (r: Vec<ReportGroupBy>)
    ensures
        r@ == v@,
{
    let mut out: Vec<ReportGroupBy> = Vec::new();
    let mut i: usize = 0;
    while i < v.len()
        invariant
            i <= v.len(),
            out@ == v@.take(i as int),
        decreases v.len() - i,
    {
        out.push(v[i]);
        i += 1;
        assert(out@ =~= v@.take(i as int));
    }
    assert(v@.take(v@.len() as int) =~= v@);
    out
}

pub fn merge_report_config(config: &ConfigFile, overrides: &ReportOverrides) -> (r: ReportConfig)
    ensures
        merged_report(r, *config, *overrides),
{
    let mut report = ReportConfig {
        format: config.report.format,
        group_by: copy_group_by(&config.report.group_by),
        top_files: normalize_top_limit(config.report.top_files),
        top_dirs: normalize_top_limit(config.report.top_dirs),
    };
    if let Some(format) = overrides.format {
        report.format = format;
    }
    if overrides.disable_top_files {
        report.top_files = None;
    } else if let Some(top_files) = normalize_top_limit(overrides.top_files) {
        report.top_files = Some(top_files);
    }
    if overrides.disable_top_dirs {
        report.top_dirs = None;
    } else if let Some(top_dirs) = normalize_top_limit(overrides.top_dirs) {
        report.top_dirs = Some(top_dirs);
    }
    if let Some(group_by) = &overrides.group_by {
        report.group_by = copy_group_by(group_by);
    }
    report
}

/// Dropping a zero limit twice is dropping it once.
pub proof fn lemma_positive_limit_idempotent(limit: Option<usize>)
    ensures
        positive_limit(positive_limit(limit)) == positive_limit(limit),
{
}

/// With no command-line overrides, merging gives exactly the configuration's own
/// scan options.
pub proof fn lemma_merge_without_overrides(o: ScanOptions, c: ConfigFile, v: ScanOverrides)
    requires
        v.languages is None,
        v.exclude_patterns is None,
        v.hidden is None,
        v.respect_gitignore is None,
        v.include_tests is None,
        v.include_generated is None,
        v.include_vendor is None,
        merged_options(o, c, v),
    ensures
        options_from(o, c),
{
}

/// A merged report never asks for a top section of zero entries: a zero limit,
/// from the file or the command line, switches the section off.
pub proof fn lemma_merged_limits_positive(r: ReportConfig, c: ConfigFile, v: ReportOverrides)
    requires
        merged_report(r, c, v),
    ensures
        r.top_files != Some(0usize),
        r.top_dirs != Some(0usize),
{
}

/// The default configuration file under a root: `<root>/.rloc.toml`.
pub fn default_config_path(root: &str) -> (r: String)
    ensures
        r@ == path_join(root@, ".rloc.toml"@),
{
    join(root, ".rloc.toml")
}

/// A project layout a scan recognises.
#[derive(Debug, Clone, Copy, PartialEq, Eq, Structural)]
pub enum Preset {
    Rust,
    Python,
    React,
    Monorepo,
}

pub open spec fn preset_name(p: Preset) -> Seq<char> {
    match p {
        Preset::Rust => "rust"@,
        Preset::Python => "python"@,
        Preset::React => "react"@,
        Preset::Monorepo => "monorepo"@,
    }
}

impl Preset {
    pub fn as_str(self) -> (r: &'static str)
        ensures
            r@ == preset_name(self),
    {
        match self {
            Preset::Rust => "rust",
            Preset::Python => "python",
            Preset::React => "react",
            Preset::Monorepo => "monorepo",
        }
    }
}

/// Which marker files and directories exist under a project root.
#[derive(Debug, Clone, Copy, PartialEq, Eq, Structural)]
pub struct ProjectMarkers {
    pub cargo_toml: bool,
    pub pyproject_toml: bool,
    pub requirements_txt: bool,
    pub setup_py: bool,
    pub package_json: bool,
    pub pnpm_workspace_yaml: bool,
    pub turbo_json: bool,
    pub nx_json: bool,
    pub lerna_json: bool,
    pub packages_dir: bool,
    pub crates_dir: bool,
}

/// The presets that apply, in order: Rust (a `Cargo.toml` or Rust sources), Python
/// (a packaging file or Python sources), React (a `package.json` with JSX or TSX
/// sources), monorepo (a workspace file or a `packages` or `crates` directory).
pub open spec fn presets_for(m: ProjectMarkers, languages: Seq<Language>) -> Seq<Preset> {
    let s0: Seq<Preset> = Seq::empty();
    let s1 = if m.cargo_toml || languages.contains(Language::Rust) {
        s0.push(Preset::Rust)
    } else {
        s0
    };
    let s2 = if m.pyproject_toml || m.requirements_txt || m.setup_py || languages.contains(Language::Python) {
        s1.push(Preset::Python)
    } else {
        s1
    };
    let s3 = if m.package_json && (languages.contains(Language::Jsx) || languages.contains(Language::Tsx)) {
        s2.push(Preset::React)
    } else {
        s2
    };
    if m.pnpm_workspace_yaml || m.turbo_json || m.nx_json || m.lerna_json || m.packages_dir || m.crates_dir {
        s3.push(Preset::Monorepo)
    } else {
        s3
    }
}

fn has_language(languages: &Vec<Language>, expected: Language) -> (r: bool)
    ensures
        r == languages@.contains(expected),
{
    crate::types::contains_language(languages, expected)
}

pub fn detect_presets(markers: &ProjectMarkers, languages: &Vec<Language>) -> (r: Vec<Preset>)
    ensures
        r@ == presets_for(*markers, languages@),
{
    let mut presets: Vec<Preset> = Vec::new();
    if markers.cargo_toml || has_language(languages, Language::Rust) {
        presets.push(Preset::Rust);
    }
    if markers.pyproject_toml || markers.requirements_txt || markers.setup_py || has_language(
        languages,
        Language::Python,
    ) {
        presets.push(Preset::Python);
    }
    if markers.package_json && (has_language(languages, Language::Jsx) || has_language(
        languages,
        Language::Tsx,
    )) {
        presets.push(Preset::React);
    }
    if markers.pnpm_workspace_yaml || markers.turbo_json || markers.nx_json || markers.lerna_json
        || markers.packages_dir || markers.crates_dir {
        presets.push(Preset::Monorepo);
    }
    presets
}

} // verus!
