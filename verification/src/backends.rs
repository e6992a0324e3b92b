//! The built-in language backends: each one's descriptor, and the classifier it
//! runs on a file's text.
use vstd::prelude::*;

use crate::lang::cfamily::{c_effective_kinds, c_reasons};
use crate::lang::js::{j_effective_kinds, j_reasons, js_parse_warnings};
use crate::lang::plain::{classify_text, text_analysis_of, TextMode};
use crate::lang::powershell::{w_effective_kinds, w_reasons};
use crate::lang::python::{docstring_set, p_effective_kinds, p_reasons, python_tree_rows};
use crate::treesitter::{grammar_loads, Grammar};
use crate::lang::rust::{r_effective_kinds, r_reasons};
use crate::lang::shell::{s_effective_kinds, s_reasons};
use crate::lang::sql::{q_effective_kinds, q_reasons};
use crate::lang::web::{css_effective_kinds, css_reasons, h_effective_kinds, h_reasons};
use crate::lang::{cfamily, js, powershell, python, rust, shell, sql, web};
use crate::lines::{
    analysis_of, breakdown_of, lemma_breakdown_metrics_unique, lemma_counts_partition, BackendFileAnalysis,
    LineKind,
};
use crate::metrics::{metrics_from, FileMetrics};
use crate::metrics::same_metrics;
use crate::registry::{descriptor_map, names_of, LanguageBackendRegistry, LanguageDescriptor};
use crate::text::split_lines;
use crate::types::{language_name, ClassificationOptions, FileCategory, Language};

verus! {

/// `d` describes `language` under `name`, with the given extensions and file names.
pub open spec fn describes(
    d: LanguageDescriptor,
    language: Language,
    name: Seq<char>,
    extensions: Seq<Seq<char>>,
    file_names: Seq<Seq<char>>,
) -> bool {
    &&& d.language == language
    &&& d.display_name@ == name
    &&& names_of(d.extensions@) == extensions
    &&& names_of(d.file_names@) == file_names
}

// ---------------------------------------------------------------------------
// Descriptors
// ---------------------------------------------------------------------------

/// The C descriptor.
pub fn c_descriptor() -> (d: LanguageDescriptor)
    ensures
        describes(d, Language::C, "C"@, seq!["c"@, "h"@], Seq::empty()),
{
    let d = LanguageDescriptor::new(Language::C, "C", &["c", "h"]);
    assert(names_of(d.extensions@) =~= seq!["c"@, "h"@]);
    assert(names_of(d.file_names@) =~= Seq::<Seq<char>>::empty());
    d
}

/// The C++ descriptor.
pub fn cpp_descriptor() -> (d: LanguageDescriptor)
    ensures
        describes(d, Language::Cpp, "C++"@, seq!["cpp"@], Seq::empty()),
{
    let d = LanguageDescriptor::new(Language::Cpp, "C++", &["cpp"]);
    assert(names_of(d.extensions@) =~= seq!["cpp"@]);
    assert(names_of(d.file_names@) =~= Seq::<Seq<char>>::empty());
    d
}

/// The Java descriptor.
pub fn java_descriptor() -> (d: LanguageDescriptor)
    ensures
        describes(d, Language::Java, "Java"@, seq!["java"@], Seq::empty()),
{
    let d = LanguageDescriptor::new(Language::Java, "Java", &["java"]);
    assert(names_of(d.extensions@) =~= seq!["java"@]);
    assert(names_of(d.file_names@) =~= Seq::<Seq<char>>::empty());
    d
}

/// The Swift descriptor.
pub fn swift_descriptor() -> (d: LanguageDescriptor)
    ensures
        describes(d, Language::Swift, "Swift"@, seq!["swift"@], Seq::empty()),
{
    let d = LanguageDescriptor::new(Language::Swift, "Swift", &["swift"]);
    assert(names_of(d.extensions@) =~= seq!["swift"@]);
    assert(names_of(d.file_names@) =~= Seq::<Seq<char>>::empty());
    d
}

/// The Objective-C descriptor.
pub fn objective_c_descriptor() -> (d: LanguageDescriptor)
    ensures
        describes(d, Language::ObjectiveC, "Objective-C"@, seq!["m"@], Seq::empty()),
{
    let d = LanguageDescriptor::new(Language::ObjectiveC, "Objective-C", &["m"]);
    assert(names_of(d.extensions@) =~= seq!["m"@]);
    assert(names_of(d.file_names@) =~= Seq::<Seq<char>>::empty());
    d
}

/// The Zig descriptor.
pub fn zig_descriptor() -> (d: LanguageDescriptor)
    ensures
        describes(d, Language::Zig, "Zig"@, seq!["zig"@], Seq::empty()),
{
    let d = LanguageDescriptor::new(Language::Zig, "Zig", &["zig"]);
    assert(names_of(d.extensions@) =~= seq!["zig"@]);
    assert(names_of(d.file_names@) =~= Seq::<Seq<char>>::empty());
    d
}

/// The Rust descriptor.
pub fn rust_descriptor() -> (d: LanguageDescriptor)
    ensures
        describes(d, Language::Rust, "Rust"@, seq!["rs"@], Seq::empty()),
{
    let d = LanguageDescriptor::new(Language::Rust, "Rust", &["rs"]);
    assert(names_of(d.extensions@) =~= seq!["rs"@]);
    assert(names_of(d.file_names@) =~= Seq::<Seq<char>>::empty());
    d
}

/// The Python descriptor.
pub fn python_descriptor() -> (d: LanguageDescriptor)
    ensures
        describes(d, Language::Python, "Python"@, seq!["py"@], Seq::empty()),
{
    let d = LanguageDescriptor::new(Language::Python, "Python", &["py"]);
    assert(names_of(d.extensions@) =~= seq!["py"@]);
    assert(names_of(d.file_names@) =~= Seq::<Seq<char>>::empty());
    d
}

/// The JavaScript descriptor.
pub fn javascript_descriptor() -> (d: LanguageDescriptor)
    ensures
        describes(d, Language::JavaScript, "JavaScript"@, seq!["js"@], Seq::empty()),
{
    let d = LanguageDescriptor::new(Language::JavaScript, "JavaScript", &["js"]);
    assert(names_of(d.extensions@) =~= seq!["js"@]);
    assert(names_of(d.file_names@) =~= Seq::<Seq<char>>::empty());
    d
}

/// The TypeScript descriptor.
pub fn typescript_descriptor() -> (d: LanguageDescriptor)
    ensures
        describes(d, Language::TypeScript, "TypeScript"@, seq!["ts"@], Seq::empty()),
{
    let d = LanguageDescriptor::new(Language::TypeScript, "TypeScript", &["ts"]);
    assert(names_of(d.extensions@) =~= seq!["ts"@]);
    assert(names_of(d.file_names@) =~= Seq::<Seq<char>>::empty());
    d
}

/// The JSX descriptor.
pub fn jsx_descriptor() -> (d: LanguageDescriptor)
    ensures
        describes(d, Language::Jsx, "JSX"@, seq!["jsx"@], Seq::empty()),
{
    let d = LanguageDescriptor::new(Language::Jsx, "JSX", &["jsx"]);
    assert(names_of(d.extensions@) =~= seq!["jsx"@]);
    assert(names_of(d.file_names@) =~= Seq::<Seq<char>>::empty());
    d
}

/// The TSX descriptor.
pub fn tsx_descriptor() -> (d: LanguageDescriptor)
    ensures
        describes(d, Language::Tsx, "TSX"@, seq!["tsx"@], Seq::empty()),
{
    let d = LanguageDescriptor::new(Language::Tsx, "TSX", &["tsx"]);
    assert(names_of(d.extensions@) =~= seq!["tsx"@]);
    assert(names_of(d.file_names@) =~= Seq::<Seq<char>>::empty());
    d
}

/// The shell descriptor: extensions and dotfile names.
pub fn shell_descriptor() -> (d: LanguageDescriptor)
    ensures
        describes(d, Language::Shell, "Shell"@, seq!["sh"@, "bash"@, "zsh"@], seq![".bashrc"@, ".zshrc"@, ".envrc"@]),
{
    let d = LanguageDescriptor::with_file_names(Language::Shell, "Shell", &["sh", "bash", "zsh"], &[".bashrc", ".zshrc", ".envrc"]);
    assert(names_of(d.extensions@) =~= seq!["sh"@, "bash"@, "zsh"@]);
    assert(names_of(d.file_names@) =~= seq![".bashrc"@, ".zshrc"@, ".envrc"@]);
    d
}

/// The SQL descriptor.
pub fn sql_descriptor() -> (d: LanguageDescriptor)
    ensures
        describes(d, Language::Sql, "SQL"@, seq!["sql"@, "psql"@], Seq::empty()),
{
    let d = LanguageDescriptor::new(Language::Sql, "SQL", &["sql", "psql"]);
    assert(names_of(d.extensions@) =~= seq!["sql"@, "psql"@]);
    assert(names_of(d.file_names@) =~= Seq::<Seq<char>>::empty());
    d
}

/// The HTML descriptor.
pub fn html_descriptor() -> (d: LanguageDescriptor)
    ensures
        describes(d, Language::Html, "HTML"@, seq!["html"@, "htm"@, "xhtml"@, "gohtml"@], Seq::empty()),
{
    let d = LanguageDescriptor::new(Language::Html, "HTML", &["html", "htm", "xhtml", "gohtml"]);
    assert(names_of(d.extensions@) =~= seq!["html"@, "htm"@, "xhtml"@, "gohtml"@]);
    assert(names_of(d.file_names@) =~= Seq::<Seq<char>>::empty());
    d
}

/// The CSS descriptor.
pub fn css_descriptor() -> (d: LanguageDescriptor)
    ensures
        describes(d, Language::Css, "CSS"@, seq!["css"@], Seq::empty()),
{
    let d = LanguageDescriptor::new(Language::Css, "CSS", &["css"]);
    assert(names_of(d.extensions@) =~= seq!["css"@]);
    assert(names_of(d.file_names@) =~= Seq::<Seq<char>>::empty());
    d
}

/// The PowerShell descriptor.
pub fn powershell_descriptor() -> (d: LanguageDescriptor)
    ensures
        describes(d, Language::PowerShell, "PowerShell"@, seq!["ps1"@], Seq::empty()),
{
    let d = LanguageDescriptor::new(Language::PowerShell, "PowerShell", &["ps1"]);
    assert(names_of(d.extensions@) =~= seq!["ps1"@]);
    assert(names_of(d.file_names@) =~= Seq::<Seq<char>>::empty());
    d
}

/// The Markdown descriptor.
pub fn markdown_descriptor() -> (d: LanguageDescriptor)
    ensures
        describes(d, Language::Markdown, "Markdown"@, seq!["md"@], Seq::empty()),
{
    let d = LanguageDescriptor::new(Language::Markdown, "Markdown", &["md"]);
    assert(names_of(d.extensions@) =~= seq!["md"@]);
    assert(names_of(d.file_names@) =~= Seq::<Seq<char>>::empty());
    d
}

/// The configuration-file descriptor.
pub fn config_descriptor() -> (d: LanguageDescriptor)
    ensures
        describes(d, Language::Config, "Config"@, seq!["toml"@, "yaml"@, "yml"@, "json"@, "jsonc"@, "lock"@, "ini"@, "cfg"@, "conf"@], Seq::empty()),
{
    let d = LanguageDescriptor::new(Language::Config, "Config", &["toml", "yaml", "yml", "json", "jsonc", "lock", "ini", "cfg", "conf"]);
    assert(names_of(d.extensions@) =~= seq!["toml"@, "yaml"@, "yml"@, "json"@, "jsonc"@, "lock"@, "ini"@, "cfg"@, "conf"@]);
    assert(names_of(d.file_names@) =~= Seq::<Seq<char>>::empty());
    d
}

// ---------------------------------------------------------------------------
// Backends
// ---------------------------------------------------------------------------

/// The C backend.
#[derive(Debug, Clone, Copy)]
pub struct CBackend;

pub fn c_backend() -> (b: CBackend) {
    CBackend
}

impl CBackend {
    pub fn descriptor(&self) -> (d: LanguageDescriptor)
        ensures
            describes(d, Language::C, "C"@, seq!["c"@, "h"@], Seq::empty()),
    {
        c_descriptor()
    }
}

/// The Cpp backend.
#[derive(Debug, Clone, Copy)]
pub struct CppBackend;

pub fn cpp_backend() -> (b: CppBackend) {
    CppBackend
}

impl CppBackend {
    pub fn descriptor(&self) -> (d: LanguageDescriptor)
        ensures
            describes(d, Language::Cpp, "C++"@, seq!["cpp"@], Seq::empty()),
    {
        cpp_descriptor()
    }
}

/// The Java backend.
#[derive(Debug, Clone, Copy)]
pub struct JavaBackend;

pub fn java_backend() -> (b: JavaBackend) {
    JavaBackend
}

impl JavaBackend {
    pub fn descriptor(&self) -> (d: LanguageDescriptor)
        ensures
            describes(d, Language::Java, "Java"@, seq!["java"@], Seq::empty()),
    {
        java_descriptor()
    }
}

/// The Swift backend.
#[derive(Debug, Clone, Copy)]
pub struct SwiftBackend;

pub fn swift_backend() -> (b: SwiftBackend) {
    SwiftBackend
}

impl SwiftBackend {
    pub fn descriptor(&self) -> (d: LanguageDescriptor)
        ensures
            describes(d, Language::Swift, "Swift"@, seq!["swift"@], Seq::empty()),
    {
        swift_descriptor()
    }
}

/// The ObjectiveC backend.
#[derive(Debug, Clone, Copy)]
pub struct ObjectiveCBackend;

pub fn objective_c_backend() -> (b: ObjectiveCBackend) {
    ObjectiveCBackend
}

impl ObjectiveCBackend {
    pub fn descriptor(&self) -> (d: LanguageDescriptor)
        ensures
            describes(d, Language::ObjectiveC, "Objective-C"@, seq!["m"@], Seq::empty()),
    {
        objective_c_descriptor()
    }
}

/// The Zig backend.
#[derive(Debug, Clone, Copy)]
pub struct ZigBackend;

pub fn zig_backend() -> (b: ZigBackend) {
    ZigBackend
}

impl ZigBackend {
    pub fn descriptor(&self) -> (d: LanguageDescriptor)
        ensures
            describes(d, Language::Zig, "Zig"@, seq!["zig"@], Seq::empty()),
    {
        zig_descriptor()
    }
}

/// The Rust backend.
#[derive(Debug, Clone, Copy)]
pub struct RustBackend;

pub fn rust_backend() -> (b: RustBackend) {
    RustBackend
}

impl RustBackend {
    pub fn descriptor(&self) -> (d: LanguageDescriptor)
        ensures
            describes(d, Language::Rust, "Rust"@, seq!["rs"@], Seq::empty()),
    {
        rust_descriptor()
    }
}

/// The Python backend (syntax tree for docstrings, scanner for the rest).
#[derive(Debug, Clone, Copy)]
pub struct PythonBackend;

pub fn python_backend() -> (b: PythonBackend) {
    PythonBackend
}

impl PythonBackend {
    pub fn descriptor(&self) -> (d: LanguageDescriptor)
        ensures
            describes(d, Language::Python, "Python"@, seq!["py"@], Seq::empty()),
    {
        python_descriptor()
    }
}

/// The shell backend.
#[derive(Debug, Clone, Copy)]
pub struct ShellBackend;

pub fn shell_backend() -> (b: ShellBackend) {
    ShellBackend
}

impl ShellBackend {
    pub fn descriptor(&self) -> (d: LanguageDescriptor)
        ensures
            describes(d, Language::Shell, "Shell"@, seq!["sh"@, "bash"@, "zsh"@], seq![".bashrc"@, ".zshrc"@, ".envrc"@]),
    {
        shell_descriptor()
    }
}

/// The SQL backend.
#[derive(Debug, Clone, Copy)]
pub struct SqlBackend;

pub fn sql_backend() -> (b: SqlBackend) {
    SqlBackend
}

impl SqlBackend {
    pub fn descriptor(&self) -> (d: LanguageDescriptor)
        ensures
            describes(d, Language::Sql, "SQL"@, seq!["sql"@, "psql"@], Seq::empty()),
    {
        sql_descriptor()
    }
}

/// The HTML backend.
#[derive(Debug, Clone, Copy)]
pub struct HtmlBackend;

pub fn html_backend() -> (b: HtmlBackend) {
    HtmlBackend
}

impl HtmlBackend {
    pub fn descriptor(&self) -> (d: LanguageDescriptor)
        ensures
            describes(d, Language::Html, "HTML"@, seq!["html"@, "htm"@, "xhtml"@, "gohtml"@], Seq::empty()),
    {
        html_descriptor()
    }
}

/// The CSS backend.
#[derive(Debug, Clone, Copy)]
pub struct CssBackend;

pub fn css_backend() -> (b: CssBackend) {
    CssBackend
}

impl CssBackend {
    pub fn descriptor(&self) -> (d: LanguageDescriptor)
        ensures
            describes(d, Language::Css, "CSS"@, seq!["css"@], Seq::empty()),
    {
        css_descriptor()
    }
}

/// The PowerShell backend.
#[derive(Debug, Clone, Copy)]
pub struct PowerShellBackend;

pub fn powershell_backend() -> (b: PowerShellBackend) {
    PowerShellBackend
}

impl PowerShellBackend {
    pub fn descriptor(&self) -> (d: LanguageDescriptor)
        ensures
            describes(d, Language::PowerShell, "PowerShell"@, seq!["ps1"@], Seq::empty()),
    {
        powershell_descriptor()
    }
}

/// The backend of one JS-family language.
#[derive(Debug, Clone, Copy)]
pub struct JsFamilyBackend {
    descriptor: LanguageDescriptor,
}

impl JsFamilyBackend {
    pub closed spec fn language(self) -> Language {
        self.descriptor.language
    }

    /// The descriptor the backend was made with.
    pub closed spec fn descriptor_view(self) -> LanguageDescriptor {
        self.descriptor
    }

    pub fn descriptor(&self) -> (d: LanguageDescriptor)
        ensures
            d == self.descriptor_view(),
            d.language == self.language(),
    {
        self.descriptor
    }
}

pub fn javascript_backend() -> (b: JsFamilyBackend)
    ensures
        b.language() == Language::JavaScript,
        describes(b.descriptor_view(), Language::JavaScript, "JavaScript"@, seq!["js"@], Seq::empty()),
{
    JsFamilyBackend { descriptor: javascript_descriptor() }
}

pub fn typescript_backend() -> (b: JsFamilyBackend)
    ensures
        b.language() == Language::TypeScript,
        describes(b.descriptor_view(), Language::TypeScript, "TypeScript"@, seq!["ts"@], Seq::empty()),
{
    JsFamilyBackend { descriptor: typescript_descriptor() }
}

pub fn jsx_backend() -> (b: JsFamilyBackend)
    ensures
        b.language() == Language::Jsx,
        describes(b.descriptor_view(), Language::Jsx, "JSX"@, seq!["jsx"@], Seq::empty()),
{
    JsFamilyBackend { descriptor: jsx_descriptor() }
}

pub fn tsx_backend() -> (b: JsFamilyBackend)
    ensures
        b.language() == Language::Tsx,
        describes(b.descriptor_view(), Language::Tsx, "TSX"@, seq!["tsx"@], Seq::empty()),
{
    JsFamilyBackend { descriptor: tsx_descriptor() }
}

/// The four JS-family descriptors.
pub fn js_descriptors() -> (r: [LanguageDescriptor; 4])
    ensures
        describes(r@[0], Language::JavaScript, "JavaScript"@, seq!["js"@], Seq::empty()),
        describes(r@[1], Language::TypeScript, "TypeScript"@, seq!["ts"@], Seq::empty()),
        describes(r@[2], Language::Jsx, "JSX"@, seq!["jsx"@], Seq::empty()),
        describes(r@[3], Language::Tsx, "TSX"@, seq!["tsx"@], Seq::empty()),
{
    [javascript_descriptor(), typescript_descriptor(), jsx_descriptor(), tsx_descriptor()]
}

/// The six C-family descriptors.
pub fn cfamily_descriptors() -> (r: [LanguageDescriptor; 6])
    ensures
        r@[0].language == Language::C,
        r@[1].language == Language::Cpp,
        r@[2].language == Language::Java,
        r@[3].language == Language::Swift,
        r@[4].language == Language::ObjectiveC,
        r@[5].language == Language::Zig,
{
    [c_descriptor(), cpp_descriptor(), java_descriptor(), swift_descriptor(), objective_c_descriptor(), zig_descriptor()]
}

/// A Markdown or configuration backend: lines are read without a grammar.
#[derive(Debug, Clone, Copy)]
pub struct PlainTextBackend {
    descriptor: LanguageDescriptor,
    mode: TextMode,
}

impl PlainTextBackend {
    pub closed spec fn language(self) -> Language {
        self.descriptor.language
    }

    pub closed spec fn mode(self) -> TextMode {
        self.mode
    }

    /// The descriptor the backend was made with.
    pub closed spec fn descriptor_view(self) -> LanguageDescriptor {
        self.descriptor
    }

    pub fn descriptor(&self) -> (d: LanguageDescriptor)
        ensures
            d == self.descriptor_view(),
            d.language == self.language(),
    {
        self.descriptor
    }
}

/// Markdown: every non-blank line is documentation.
pub fn markdown_backend() -> (b: PlainTextBackend)
    ensures
        b.language() == Language::Markdown,
        b.mode() == TextMode::Markdown,
        describes(b.descriptor_view(), Language::Markdown, "Markdown"@, seq!["md"@], Seq::empty()),
{
    PlainTextBackend { descriptor: markdown_descriptor(), mode: TextMode::Markdown }
}

/// Configuration files: comment lines and entries.
pub fn config_backend() -> (b: PlainTextBackend)
    ensures
        b.language() == Language::Config,
        b.mode() == TextMode::Config,
        describes(
            b.descriptor_view(),
            Language::Config,
            "Config"@,
            seq!["toml"@, "yaml"@, "yml"@, "json"@, "jsonc"@, "lock"@, "ini"@, "cfg"@, "conf"@],
            Seq::empty(),
        ),
{
    PlainTextBackend { descriptor: config_descriptor(), mode: TextMode::Config }
}

/// Any built-in backend.
#[derive(Debug, Clone, Copy)]
pub enum Backend {
    C(CBackend),
    Cpp(CppBackend),
    Java(JavaBackend),
    Swift(SwiftBackend),
    ObjectiveC(ObjectiveCBackend),
    Zig(ZigBackend),
    Rust(RustBackend),
    Python(PythonBackend),
    JsFamily(JsFamilyBackend),
    Shell(ShellBackend),
    Sql(SqlBackend),
    Html(HtmlBackend),
    Css(CssBackend),
    PowerShell(PowerShellBackend),
    PlainText(PlainTextBackend),
}

/// The language a backend classifies.
pub open spec fn backend_language(b: Backend) -> Language {
    match b {
        Backend::C(_) => Language::C,
        Backend::Cpp(_) => Language::Cpp,
        Backend::Java(_) => Language::Java,
        Backend::Swift(_) => Language::Swift,
        Backend::ObjectiveC(_) => Language::ObjectiveC,
        Backend::Zig(_) => Language::Zig,
        Backend::Rust(_) => Language::Rust,
        Backend::Python(_) => Language::Python,
        Backend::JsFamily(j) => j.language(),
        Backend::Shell(_) => Language::Shell,
        Backend::Sql(_) => Language::Sql,
        Backend::Html(_) => Language::Html,
        Backend::Css(_) => Language::Css,
        Backend::PowerShell(_) => Language::PowerShell,
        Backend::PlainText(p) => p.language(),
    }
}

/// `a` is what backend `b` gives for a file with this path, text and size.
pub open spec fn classified_by(
    b: Backend,
    a: BackendFileAnalysis,
    path: Seq<char>,
    text: Seq<char>,
    bytes: u64,
    category: FileCategory,
    o: ClassificationOptions,
) -> bool {
    let ls = split_lines(text);
    let l = backend_language(b);
    match b {
        Backend::Rust(_) => a.warnings@.len() == 0 && analysis_of(
            a,
            path,
            l,
            category,
            bytes,
            ls,
            r_effective_kinds(ls, o),
            r_reasons(ls, o),
        ),
        Backend::Python(_) => a.warnings@.len() == (if grammar_loads(Grammar::Python) {
            0int
        } else {
            1int
        }) && analysis_of(
            a,
            path,
            l,
            category,
            bytes,
            ls,
            p_effective_kinds(ls, docstring_set(ls, python_tree_rows(text)), o),
            p_reasons(ls, docstring_set(ls, python_tree_rows(text)), o),
        ),
        Backend::JsFamily(_) => js_parse_warnings(a.warnings@, path, l) && analysis_of(
            a,
            path,
            l,
            category,
            bytes,
            ls,
            j_effective_kinds(ls, o),
            j_reasons(ls, o),
        ),
        Backend::Shell(_) => a.warnings@.len() == 0 && analysis_of(
            a,
            path,
            l,
            category,
            bytes,
            ls,
            s_effective_kinds(ls, o),
            s_reasons(ls, o),
        ),
        Backend::Sql(_) => a.warnings@.len() == 0 && analysis_of(
            a,
            path,
            l,
            category,
            bytes,
            ls,
            q_effective_kinds(ls, o),
            q_reasons(ls, o),
        ),
        Backend::Html(_) => a.warnings@.len() == 0 && analysis_of(
            a,
            path,
            l,
            category,
            bytes,
            ls,
            h_effective_kinds(ls, o),
            h_reasons(ls, o),
        ),
        Backend::Css(_) => a.warnings@.len() == 0 && analysis_of(
            a,
            path,
            l,
            category,
            bytes,
            ls,
            css_effective_kinds(ls, o),
            css_reasons(ls, o),
        ),
        Backend::PowerShell(_) => a.warnings@.len() == 0 && analysis_of(
            a,
            path,
            l,
            category,
            bytes,
            ls,
            w_effective_kinds(ls, o),
            w_reasons(ls, o),
        ),
        Backend::PlainText(p) => text_analysis_of(a, path, l, category, bytes, ls, p.mode()),
        _ => a.warnings@.len() == 0 && analysis_of(
            a,
            path,
            l,
            category,
            bytes,
            ls,
            c_effective_kinds(ls, l, o),
            c_reasons(ls, l, o),
        ),
    }
}

impl Backend {
    pub fn descriptor(&self) -> (d: LanguageDescriptor)
        ensures
            d.language == backend_language(*self),
    {
        match self {
            Backend::C(_) => c_descriptor(),
            Backend::Cpp(_) => cpp_descriptor(),
            Backend::Java(_) => java_descriptor(),
            Backend::Swift(_) => swift_descriptor(),
            Backend::ObjectiveC(_) => objective_c_descriptor(),
            Backend::Zig(_) => zig_descriptor(),
            Backend::Rust(_) => rust_descriptor(),
            Backend::Python(_) => python_descriptor(),
            Backend::JsFamily(j) => j.descriptor(),
            Backend::Shell(_) => shell_descriptor(),
            Backend::Sql(_) => sql_descriptor(),
            Backend::Html(_) => html_descriptor(),
            Backend::Css(_) => css_descriptor(),
            Backend::PowerShell(_) => powershell_descriptor(),
            Backend::PlainText(p) => p.descriptor(),
        }
    }

    /// Classifies a file's text with this backend.
    pub fn classify_file(
        &self,
        path: &str,
        contents: &str,
        bytes: u64,
        category: FileCategory,
        options: &ClassificationOptions,
    ) -> (a: BackendFileAnalysis)
        requires
            split_lines(contents@).len() < u32::MAX,
        ensures
            classified_by(*self, a, path@, contents@, bytes, category, *options),
    {
        let language = self.descriptor().language;
        match self {
            Backend::Rust(_) => rust::classify_file(path, contents, bytes, category, options),
            Backend::Python(_) => python::classify_file(path, contents, bytes, category, options),
            Backend::JsFamily(_) => js::classify_file(path, contents, bytes, language, category, options),
            Backend::Shell(_) => shell::classify_file(path, contents, bytes, category, options),
            Backend::Sql(_) => sql::classify_file(path, contents, bytes, category, options),
            Backend::Html(_) => web::classify_html_file(path, contents, bytes, category, options),
            Backend::Css(_) => web::classify_css_file(path, contents, bytes, category, options),
            Backend::PowerShell(_) => powershell::classify_file(path, contents, bytes, category, options),
            Backend::PlainText(p) => classify_text(path, contents, bytes, language, p.mode, category),
            _ => cfamily::classify_file(path, contents, bytes, language, category, options),
        }
    }
}

// ---------------------------------------------------------------------------
// Every backend gives one kind per line
// ---------------------------------------------------------------------------

proof fn lemma_c_fold_len(lines: Seq<Seq<char>>, lang: Language, n: int)
    requires
        0 <= n,
    ensures
        cfamily::c_fold(lines, lang, n).0.len() == n,
    decreases n,
{
    if n > 0 {
        lemma_c_fold_len(lines, lang, n - 1);
    }
}

proof fn lemma_j_fold_len(lines: Seq<Seq<char>>, n: int)
    requires
        0 <= n,
    ensures
        js::j_fold(lines, n).0.len() == n,
    decreases n,
{
    if n > 0 {
        lemma_j_fold_len(lines, n - 1);
    }
}

proof fn lemma_w_fold_len(lines: Seq<Seq<char>>, n: int)
    requires
        0 <= n,
    ensures
        powershell::w_fold(lines, n).0.len() == n,
    decreases n,
{
    if n > 0 {
        lemma_w_fold_len(lines, n - 1);
    }
}

proof fn lemma_r_fold_len(lines: Seq<Seq<char>>, n: int)
    requires
        0 <= n,
    ensures
        rust::r_fold(lines, n).0.len() == n,
    decreases n,
{
    if n > 0 {
        lemma_r_fold_len(lines, n - 1);
    }
}

proof fn lemma_s_fold_len(lines: Seq<Seq<char>>, n: int)
    requires
        0 <= n,
    ensures
        shell::s_fold(lines, n).0.len() == n,
    decreases n,
{
    if n > 0 {
        lemma_s_fold_len(lines, n - 1);
    }
}

proof fn lemma_q_fold_len(lines: Seq<Seq<char>>, n: int)
    requires
        0 <= n,
    ensures
        sql::q_fold(lines, n).0.len() == n,
    decreases n,
{
    if n > 0 {
        lemma_q_fold_len(lines, n - 1);
    }
}

proof fn lemma_h_fold_len(lines: Seq<Seq<char>>, n: int)
    requires
        0 <= n,
    ensures
        web::h_fold(lines, n).0.len() == n,
    decreases n,
{
    if n > 0 {
        lemma_h_fold_len(lines, n - 1);
    }
}

proof fn lemma_css_fold_len(lines: Seq<Seq<char>>, n: int)
    requires
        0 <= n,
    ensures
        web::css_fold(lines, n).0.len() == n,
    decreases n,
{
    if n > 0 {
        lemma_css_fold_len(lines, n - 1);
    }
}

/// The line counts of a breakdown of `kinds` add up to its total, which is the
/// number of kinds, and it has no parse errors.
proof fn lemma_breakdown_lines(m: FileMetrics, path: Seq<char>, l: Language, c: FileCategory, bytes: u64, kinds: Seq<LineKind>)
    requires
        exists|b: crate::metrics::LineBreakdown| breakdown_of(b, kinds) && #[trigger] metrics_from(m, path, l, c, bytes, b),
    ensures
        m.total_lines == kinds.len(),
        m.blank_lines + m.code_lines + m.comment_lines + m.doc_lines + m.mixed_lines == m.total_lines,
        m.parse_errors == 0,
{
    let b = choose|b: crate::metrics::LineBreakdown| breakdown_of(b, kinds) && #[trigger] metrics_from(m, path, l, c, bytes, b);
    lemma_counts_partition(kinds);
}

/// Whatever a backend gives counts each line of the text once: as many lines as
/// the text has, split among the kinds, and no parse errors.
pub proof fn lemma_classified_lines(
    b: Backend,
    a: BackendFileAnalysis,
    path: Seq<char>,
    text: Seq<char>,
    bytes: u64,
    category: FileCategory,
    o: ClassificationOptions,
)
    requires
        classified_by(b, a, path, text, bytes, category, o),
    ensures
        a.metrics.total_lines == split_lines(text).len(),
        a.metrics.blank_lines + a.metrics.code_lines + a.metrics.comment_lines + a.metrics.doc_lines
            + a.metrics.mixed_lines == a.metrics.total_lines,
        a.metrics.parse_errors == 0,
{
    let ls = split_lines(text);
    let n = ls.len() as int;
    let l = backend_language(b);
    let m = a.metrics;
    match b {
        Backend::Rust(_) => {
            lemma_r_fold_len(ls, n);
            lemma_breakdown_lines(m, path, l, category, bytes, r_effective_kinds(ls, o));
        },
        Backend::Python(_) => {
            lemma_breakdown_lines(m, path, l, category, bytes, p_effective_kinds(ls, docstring_set(ls, python_tree_rows(text)), o));
        },
        Backend::JsFamily(_) => {
            lemma_j_fold_len(ls, n);
            lemma_breakdown_lines(m, path, l, category, bytes, j_effective_kinds(ls, o));
        },
        Backend::Shell(_) => {
            lemma_s_fold_len(ls, n);
            lemma_breakdown_lines(m, path, l, category, bytes, s_effective_kinds(ls, o));
        },
        Backend::Sql(_) => {
            lemma_q_fold_len(ls, n);
            lemma_breakdown_lines(m, path, l, category, bytes, q_effective_kinds(ls, o));
        },
        Backend::Html(_) => {
            lemma_h_fold_len(ls, n);
            lemma_breakdown_lines(m, path, l, category, bytes, h_effective_kinds(ls, o));
        },
        Backend::Css(_) => {
            lemma_css_fold_len(ls, n);
            lemma_breakdown_lines(m, path, l, category, bytes, css_effective_kinds(ls, o));
        },
        Backend::PowerShell(_) => {
            lemma_w_fold_len(ls, n);
            lemma_breakdown_lines(m, path, l, category, bytes, w_effective_kinds(ls, o));
        },
        Backend::PlainText(p) => {
            lemma_breakdown_lines(m, path, l, category, bytes, crate::lang::plain::text_kinds(ls, p.mode()));
        },
        _ => {
            lemma_c_fold_len(ls, l, n);
            lemma_breakdown_lines(m, path, l, category, bytes, c_effective_kinds(ls, l, o));
        },
    }
}

/// Whatever a backend gives, its metrics name the file, its language, category and
/// size.
pub proof fn lemma_classified_metrics(
    b: Backend,
    a: BackendFileAnalysis,
    path: Seq<char>,
    text: Seq<char>,
    bytes: u64,
    category: FileCategory,
    o: ClassificationOptions,
)
    requires
        classified_by(b, a, path, text, bytes, category, o),
    ensures
        a.metrics.path@ == path,
        a.metrics.language == backend_language(b),
        a.metrics.category == category,
        a.metrics.bytes == bytes,
{
}

/// Every backend gives the same metrics each time it classifies the same text.
pub proof fn lemma_classification_deterministic(
    b: Backend,
    a1: BackendFileAnalysis,
    a2: BackendFileAnalysis,
    path: Seq<char>,
    text: Seq<char>,
    bytes: u64,
    category: FileCategory,
    o: ClassificationOptions,
)
    requires
        classified_by(b, a1, path, text, bytes, category, o),
        classified_by(b, a2, path, text, bytes, category, o),
    ensures
        same_metrics(a1.metrics, a2.metrics),
{
    let ls = split_lines(text);
    let l = backend_language(b);
    match b {
        Backend::Rust(_) => lemma_breakdown_metrics_unique(a1.metrics, a2.metrics, path, l, category, bytes, r_effective_kinds(ls, o)),
        Backend::JsFamily(_) => lemma_breakdown_metrics_unique(a1.metrics, a2.metrics, path, l, category, bytes, j_effective_kinds(ls, o)),
        Backend::Shell(_) => lemma_breakdown_metrics_unique(a1.metrics, a2.metrics, path, l, category, bytes, s_effective_kinds(ls, o)),
        Backend::Sql(_) => lemma_breakdown_metrics_unique(a1.metrics, a2.metrics, path, l, category, bytes, q_effective_kinds(ls, o)),
        Backend::Html(_) => lemma_breakdown_metrics_unique(a1.metrics, a2.metrics, path, l, category, bytes, h_effective_kinds(ls, o)),
        Backend::Css(_) => lemma_breakdown_metrics_unique(a1.metrics, a2.metrics, path, l, category, bytes, css_effective_kinds(ls, o)),
        Backend::PowerShell(_) => lemma_breakdown_metrics_unique(a1.metrics, a2.metrics, path, l, category, bytes, w_effective_kinds(ls, o)),
        Backend::PlainText(p) => lemma_breakdown_metrics_unique(a1.metrics, a2.metrics, path, l, category, bytes, crate::lang::plain::text_kinds(ls, p.mode())),
        Backend::Python(_) => lemma_breakdown_metrics_unique(
            a1.metrics,
            a2.metrics,
            path,
            l,
            category,
            bytes,
            p_effective_kinds(ls, docstring_set(ls, python_tree_rows(text)), o),
        ),
        _ => lemma_breakdown_metrics_unique(a1.metrics, a2.metrics, path, l, category, bytes, c_effective_kinds(ls, l, o)),
    }
}

/// The languages the built-in backends classify.
pub open spec fn builtin_languages() -> Set<Language> {
    set![
        Language::Rust,
        Language::Python,
        Language::JavaScript,
        Language::TypeScript,
        Language::Jsx,
        Language::Tsx,
        Language::Shell,
        Language::Sql,
        Language::Html,
        Language::Css,
        Language::C,
        Language::Cpp,
        Language::Java,
        Language::Swift,
        Language::ObjectiveC,
        Language::Zig,
        Language::PowerShell,
        Language::Markdown,
        Language::Config,
    ]
}

/// A registry with every built-in backend: one backend, and its descriptor, for
/// each built-in language and no other.
pub fn default_registry() -> (r: LanguageBackendRegistry)
    ensures
        r.wf(),
        r.backend_table().dom() == builtin_languages(),
        descriptor_map(r.descriptor_seq()).dom() == builtin_languages(),
{
    let r = LanguageBackendRegistry::new()
        .with_backend(Backend::Rust(rust_backend()))
        .with_backend(Backend::Python(python_backend()))
        .with_backend(Backend::JsFamily(javascript_backend()))
        .with_backend(Backend::JsFamily(typescript_backend()))
        .with_backend(Backend::JsFamily(jsx_backend()))
        .with_backend(Backend::JsFamily(tsx_backend()))
        .with_backend(Backend::Shell(shell_backend()))
        .with_backend(Backend::Sql(sql_backend()))
        .with_backend(Backend::Html(html_backend()))
        .with_backend(Backend::Css(css_backend()))
        .with_backend(Backend::C(c_backend()))
        .with_backend(Backend::Cpp(cpp_backend()))
        .with_backend(Backend::Java(java_backend()))
        .with_backend(Backend::Swift(swift_backend()))
        .with_backend(Backend::ObjectiveC(objective_c_backend()))
        .with_backend(Backend::Zig(zig_backend()))
        .with_backend(Backend::PowerShell(powershell_backend()))
        .with_backend(Backend::PlainText(markdown_backend()))
        .with_backend(Backend::PlainText(config_backend()));
    assert(r.backend_table().dom() =~= builtin_languages());
    assert(descriptor_map(r.descriptor_seq()).dom() =~= builtin_languages());
    r
}

/// A language backend: the language it classifies, its descriptor, and how it
/// classifies a file's text. Whatever a backend does, the metrics it gives name the
/// file, the backend's language, and the category and size it was handed.
pub trait LanguageBackend {
    /// The language the backend classifies.
    spec fn backend_language_of(&self) -> Language;

    fn descriptor(&self) -> (d: LanguageDescriptor)
        ensures
            d.language == self.backend_language_of(),
    ;

    fn classify_file(
        &self,
        path: &str,
        contents: &str,
        bytes: u64,
        category: FileCategory,
        options: &ClassificationOptions,
    ) -> (a: BackendFileAnalysis)
        requires
            split_lines(contents@).len() < u32::MAX,
        ensures
            a.metrics.path@ == path@,
            a.metrics.language == self.backend_language_of(),
            a.metrics.category == category,
            a.metrics.bytes == bytes,
    ;
}

impl LanguageBackend for Backend {
    open spec fn backend_language_of(&self) -> Language {
        backend_language(*self)
    }

    fn descriptor(&self) -> (d: LanguageDescriptor) {
        Backend::descriptor(self)
    }

    fn classify_file(
        &self,
        path: &str,
        contents: &str,
        bytes: u64,
        category: FileCategory,
        options: &ClassificationOptions,
    ) -> (a: BackendFileAnalysis)
        ensures
            classified_by(*self, a, path@, contents@, bytes, category, *options),
    {
        let a = Backend::classify_file(self, path, contents, bytes, category, options);
        proof {
            lemma_classified_metrics(*self, a, path@, contents@, bytes, category, *options);
        }
        a
    }
}

impl LanguageBackend for CBackend {
    open spec fn backend_language_of(&self) -> Language {
        Language::C
    }

    fn descriptor(&self) -> (d: LanguageDescriptor) {
        CBackend::descriptor(self)
    }

    fn classify_file(
        &self,
        path: &str,
        contents: &str,
        bytes: u64,
        category: FileCategory,
        options: &ClassificationOptions,
    ) -> (a: BackendFileAnalysis)
        ensures
            classified_by(Backend::C(*self), a, path@, contents@, bytes, category, *options),
    {
        let b = Backend::C(*self);
        let a = Backend::classify_file(&b, path, contents, bytes, category, options);
        proof {
            lemma_classified_metrics(b, a, path@, contents@, bytes, category, *options);
        }
        a
    }
}

impl LanguageBackend for CppBackend {
    open spec fn backend_language_of(&self) -> Language {
        Language::Cpp
    }

    fn descriptor(&self) -> (d: LanguageDescriptor) {
        CppBackend::descriptor(self)
    }

    fn classify_file(
        &self,
        path: &str,
        contents: &str,
        bytes: u64,
        category: FileCategory,
        options: &ClassificationOptions,
    ) -> (a: BackendFileAnalysis)
        ensures
            classified_by(Backend::Cpp(*self), a, path@, contents@, bytes, category, *options),
    {
        let b = Backend::Cpp(*self);
        let a = Backend::classify_file(&b, path, contents, bytes, category, options);
        proof {
            lemma_classified_metrics(b, a, path@, contents@, bytes, category, *options);
        }
        a
    }
}

impl LanguageBackend for JavaBackend {
    open spec fn backend_language_of(&self) -> Language {
        Language::Java
    }

    fn descriptor(&self) -> (d: LanguageDescriptor) {
        JavaBackend::descriptor(self)
    }

    fn classify_file(
        &self,
        path: &str,
        contents: &str,
        bytes: u64,
        category: FileCategory,
        options: &ClassificationOptions,
    ) -> (a: BackendFileAnalysis)
        ensures
            classified_by(Backend::Java(*self), a, path@, contents@, bytes, category, *options),
    {
        let b = Backend::Java(*self);
        let a = Backend::classify_file(&b, path, contents, bytes, category, options);
        proof {
            lemma_classified_metrics(b, a, path@, contents@, bytes, category, *options);
        }
        a
    }
}

impl LanguageBackend for SwiftBackend {
    open spec fn backend_language_of(&self) -> Language {
        Language::Swift
    }

    fn descriptor(&self) -> (d: LanguageDescriptor) {
        SwiftBackend::descriptor(self)
    }

    fn classify_file(
        &self,
        path: &str,
        contents: &str,
        bytes: u64,
        category: FileCategory,
        options: &ClassificationOptions,
    ) -> (a: BackendFileAnalysis)
        ensures
            classified_by(Backend::Swift(*self), a, path@, contents@, bytes, category, *options),
    {
        let b = Backend::Swift(*self);
        let a = Backend::classify_file(&b, path, contents, bytes, category, options);
        proof {
            lemma_classified_metrics(b, a, path@, contents@, bytes, category, *options);
        }
        a
    }
}

impl LanguageBackend for ObjectiveCBackend {
    open spec fn backend_language_of(&self) -> Language {
        Language::ObjectiveC
    }

    fn descriptor(&self) -> (d: LanguageDescriptor) {
        ObjectiveCBackend::descriptor(self)
    }

    fn classify_file(
        &self,
        path: &str,
        contents: &str,
        bytes: u64,
        category: FileCategory,
        options: &ClassificationOptions,
    ) -> (a: BackendFileAnalysis)
        ensures
            classified_by(Backend::ObjectiveC(*self), a, path@, contents@, bytes, category, *options),
    {
        let b = Backend::ObjectiveC(*self);
        let a = Backend::classify_file(&b, path, contents, bytes, category, options);
        proof {
            lemma_classified_metrics(b, a, path@, contents@, bytes, category, *options);
        }
        a
    }
}

impl LanguageBackend for ZigBackend {
    open spec fn backend_language_of(&self) -> Language {
        Language::Zig
    }

    fn descriptor(&self) -> (d: LanguageDescriptor) {
        ZigBackend::descriptor(self)
    }

    fn classify_file(
        &self,
        path: &str,
        contents: &str,
        bytes: u64,
        category: FileCategory,
        options: &ClassificationOptions,
    ) -> (a: BackendFileAnalysis)
        ensures
            classified_by(Backend::Zig(*self), a, path@, contents@, bytes, category, *options),
    {
        let b = Backend::Zig(*self);
        let a = Backend::classify_file(&b, path, contents, bytes, category, options);
        proof {
            lemma_classified_metrics(b, a, path@, contents@, bytes, category, *options);
        }
        a
    }
}

impl LanguageBackend for RustBackend {
    open spec fn backend_language_of(&self) -> Language {
        Language::Rust
    }

    fn descriptor(&self) -> (d: LanguageDescriptor) {
        RustBackend::descriptor(self)
    }

    fn classify_file(
        &self,
        path: &str,
        contents: &str,
        bytes: u64,
        category: FileCategory,
        options: &ClassificationOptions,
    ) -> (a: BackendFileAnalysis)
        ensures
            classified_by(Backend::Rust(*self), a, path@, contents@, bytes, category, *options),
    {
        let b = Backend::Rust(*self);
        let a = Backend::classify_file(&b, path, contents, bytes, category, options);
        proof {
            lemma_classified_metrics(b, a, path@, contents@, bytes, category, *options);
        }
        a
    }
}

impl LanguageBackend for PythonBackend {
    open spec fn backend_language_of(&self) -> Language {
        Language::Python
    }

    fn descriptor(&self) -> (d: LanguageDescriptor) {
        PythonBackend::descriptor(self)
    }

    fn classify_file(
        &self,
        path: &str,
        contents: &str,
        bytes: u64,
        category: FileCategory,
        options: &ClassificationOptions,
    ) -> (a: BackendFileAnalysis)
        ensures
            classified_by(Backend::Python(*self), a, path@, contents@, bytes, category, *options),
    {
        let b = Backend::Python(*self);
        let a = Backend::classify_file(&b, path, contents, bytes, category, options);
        proof {
            lemma_classified_metrics(b, a, path@, contents@, bytes, category, *options);
        }
        a
    }
}

impl LanguageBackend for ShellBackend {
    open spec fn backend_language_of(&self) -> Language {
        Language::Shell
    }

    fn descriptor(&self) -> (d: LanguageDescriptor) {
        ShellBackend::descriptor(self)
    }

    fn classify_file(
        &self,
        path: &str,
        contents: &str,
        bytes: u64,
        category: FileCategory,
        options: &ClassificationOptions,
    ) -> (a: BackendFileAnalysis)
        ensures
            classified_by(Backend::Shell(*self), a, path@, contents@, bytes, category, *options),
    {
        let b = Backend::Shell(*self);
        let a = Backend::classify_file(&b, path, contents, bytes, category, options);
        proof {
            lemma_classified_metrics(b, a, path@, contents@, bytes, category, *options);
        }
        a
    }
}

impl LanguageBackend for SqlBackend {
    open spec fn backend_language_of(&self) -> Language {
        Language::Sql
    }

    fn descriptor(&self) -> (d: LanguageDescriptor) {
        SqlBackend::descriptor(self)
    }

    fn classify_file(
        &self,
        path: &str,
        contents: &str,
        bytes: u64,
        category: FileCategory,
        options: &ClassificationOptions,
    ) -> (a: BackendFileAnalysis)
        ensures
            classified_by(Backend::Sql(*self), a, path@, contents@, bytes, category, *options),
    {
        let b = Backend::Sql(*self);
        let a = Backend::classify_file(&b, path, contents, bytes, category, options);
        proof {
            lemma_classified_metrics(b, a, path@, contents@, bytes, category, *options);
        }
        a
    }
}

impl LanguageBackend for HtmlBackend {
    open spec fn backend_language_of(&self) -> Language {
        Language::Html
    }

    fn descriptor(&self) -> (d: LanguageDescriptor) {
        HtmlBackend::descriptor(self)
    }

    fn classify_file(
        &self,
        path: &str,
        contents: &str,
        bytes: u64,
        category: FileCategory,
        options: &ClassificationOptions,
    ) -> (a: BackendFileAnalysis)
        ensures
            classified_by(Backend::Html(*self), a, path@, contents@, bytes, category, *options),
    {
        let b = Backend::Html(*self);
        let a = Backend::classify_file(&b, path, contents, bytes, category, options);
        proof {
            lemma_classified_metrics(b, a, path@, contents@, bytes, category, *options);
        }
        a
    }
}

impl LanguageBackend for CssBackend {
    open spec fn backend_language_of(&self) -> Language {
        Language::Css
    }

    fn descriptor(&self) -> (d: LanguageDescriptor) {
        CssBackend::descriptor(self)
    }

    fn classify_file(
        &self,
        path: &str,
        contents: &str,
        bytes: u64,
        category: FileCategory,
        options: &ClassificationOptions,
    ) -> (a: BackendFileAnalysis)
        ensures
            classified_by(Backend::Css(*self), a, path@, contents@, bytes, category, *options),
    {
        let b = Backend::Css(*self);
        let a = Backend::classify_file(&b, path, contents, bytes, category, options);
        proof {
            lemma_classified_metrics(b, a, path@, contents@, bytes, category, *options);
        }
        a
    }
}

impl LanguageBackend for PowerShellBackend {
    open spec fn backend_language_of(&self) -> Language {
        Language::PowerShell
    }

    fn descriptor(&self) -> (d: LanguageDescriptor) {
        PowerShellBackend::descriptor(self)
    }

    fn classify_file(
        &self,
        path: &str,
        contents: &str,
        bytes: u64,
        category: FileCategory,
        options: &ClassificationOptions,
    ) -> (a: BackendFileAnalysis)
        ensures
            classified_by(Backend::PowerShell(*self), a, path@, contents@, bytes, category, *options),
    {
        let b = Backend::PowerShell(*self);
        let a = Backend::classify_file(&b, path, contents, bytes, category, options);
        proof {
            lemma_classified_metrics(b, a, path@, contents@, bytes, category, *options);
        }
        a
    }
}

impl LanguageBackend for JsFamilyBackend {
    open spec fn backend_language_of(&self) -> Language {
        self.language()
    }

    fn descriptor(&self) -> (d: LanguageDescriptor) {
        JsFamilyBackend::descriptor(self)
    }

    fn classify_file(
        &self,
        path: &str,
        contents: &str,
        bytes: u64,
        category: FileCategory,
        options: &ClassificationOptions,
    ) -> (a: BackendFileAnalysis)
        ensures
            classified_by(Backend::JsFamily(*self), a, path@, contents@, bytes, category, *options),
    {
        let b = Backend::JsFamily(*self);
        let a = Backend::classify_file(&b, path, contents, bytes, category, options);
        proof {
            lemma_classified_metrics(b, a, path@, contents@, bytes, category, *options);
        }
        a
    }
}

impl LanguageBackend for PlainTextBackend {
    open spec fn backend_language_of(&self) -> Language {
        self.language()
    }

    fn descriptor(&self) -> (d: LanguageDescriptor) {
        PlainTextBackend::descriptor(self)
    }

    fn classify_file(
        &self,
        path: &str,
        contents: &str,
        bytes: u64,
        category: FileCategory,
        options: &ClassificationOptions,
    ) -> (a: BackendFileAnalysis)
        ensures
            classified_by(Backend::PlainText(*self), a, path@, contents@, bytes, category, *options),
    {
        let b = Backend::PlainText(*self);
        let a = Backend::classify_file(&b, path, contents, bytes, category, options);
        proof {
            lemma_classified_metrics(b, a, path@, contents@, bytes, category, *options);
        }
        a
    }
}

} // verus!
