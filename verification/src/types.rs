//! Languages, file categories and the options that steer a scan.
use vstd::prelude::*;

verus! {

#[derive(Debug, Clone, Copy, PartialEq, Eq, Structural, PartialOrd, Ord, Hash)]
pub enum Language {
    Css,
    Go,
    Html,
    Rust,
    Shell,
    Sql,
    Python,
    JavaScript,
    TypeScript,
    Jsx,
    Tsx,
    Markdown,
    Config,
    C,
    Cpp,
    Java,
    Swift,
    ObjectiveC,
    Zig,
    Xml,
    PowerShell,
    Text,
    Unknown,
}

/// The canonical lower-case name of a language.
pub open spec fn language_name(l: Language) -> Seq<char> {
    match l {
        Language::Css => "css"@,
        Language::Go => "go"@,
        Language::Html => "html"@,
        Language::Rust => "rust"@,
        Language::Shell => "shell"@,
        Language::Sql => "sql"@,
        Language::Python => "python"@,
        Language::JavaScript => "javascript"@,
        Language::TypeScript => "typescript"@,
        Language::Jsx => "jsx"@,
        Language::Tsx => "tsx"@,
        Language::Markdown => "markdown"@,
        Language::Config => "config"@,
        Language::C => "c"@,
        Language::Cpp => "cpp"@,
        Language::Java => "java"@,
        Language::Swift => "swift"@,
        Language::ObjectiveC => "objective-c"@,
        Language::Zig => "zig"@,
        Language::Xml => "xml"@,
        Language::PowerShell => "powershell"@,
        Language::Text => "text"@,
        Language::Unknown => "unknown"@,
    }
}

/// Position of a language in declaration order (the order `Ord` uses).
pub open spec fn language_rank(l: Language) -> nat {
    match l {
        Language::Css => 0,
        Language::Go => 1,
        Language::Html => 2,
        Language::Rust => 3,
        Language::Shell => 4,
        Language::Sql => 5,
        Language::Python => 6,
        Language::JavaScript => 7,
        Language::TypeScript => 8,
        Language::Jsx => 9,
        Language::Tsx => 10,
        Language::Markdown => 11,
        Language::Config => 12,
        Language::C => 13,
        Language::Cpp => 14,
        Language::Java => 15,
        Language::Swift => 16,
        Language::ObjectiveC => 17,
        Language::Zig => 18,
        Language::Xml => 19,
        Language::PowerShell => 20,
        Language::Text => 21,
        Language::Unknown => 22,
    }
}

impl Language {
    pub fn as_str(self) -> (r: &'static str)
        ensures
            r@ == language_name(self),
    {
        match self {
            Language::Css => "css",
            Language::Go => "go",
            Language::Html => "html",
            Language::Rust => "rust",
            Language::Shell => "shell",
            Language::Sql => "sql",
            Language::Python => "python",
            Language::JavaScript => "javascript",
            Language::TypeScript => "typescript",
            Language::Jsx => "jsx",
            Language::Tsx => "tsx",
            Language::Markdown => "markdown",
            Language::Config => "config",
            Language::C => "c",
            Language::Cpp => "cpp",
            Language::Java => "java",
            Language::Swift => "swift",
            Language::ObjectiveC => "objective-c",
            Language::Zig => "zig",
            Language::Xml => "xml",
            Language::PowerShell => "powershell",
            Language::Text => "text",
            Language::Unknown => "unknown",
        }
    }

    pub fn rank(self) -> (r: u8)
        ensures
            r as nat == language_rank(self),
    {
        match self {
            Language::Css => 0,
            Language::Go => 1,
            Language::Html => 2,
            Language::Rust => 3,
            Language::Shell => 4,
            Language::Sql => 5,
            Language::Python => 6,
            Language::JavaScript => 7,
            Language::TypeScript => 8,
            Language::Jsx => 9,
            Language::Tsx => 10,
            Language::Markdown => 11,
            Language::Config => 12,
            Language::C => 13,
            Language::Cpp => 14,
            Language::Java => 15,
            Language::Swift => 16,
            Language::ObjectiveC => 17,
            Language::Zig => 18,
            Language::Xml => 19,
            Language::PowerShell => 20,
            Language::Text => 21,
            Language::Unknown => 22,
        }
    }
}

/// Distinct languages have distinct ranks.
pub proof fn lemma_language_rank_injective(a: Language, b: Language)
    ensures
        language_rank(a) == language_rank(b) <==> a == b,
{
}

/// Distinct languages have distinct names.
pub proof fn lemma_language_name_injective(a: Language, b: Language)
    ensures
        language_name(a) == language_name(b) <==> a == b,
{
    reveal_strlit("css");
    reveal_strlit("go");
    reveal_strlit("html");
    reveal_strlit("rust");
    reveal_strlit("shell");
    reveal_strlit("sql");
    reveal_strlit("python");
    reveal_strlit("javascript");
    reveal_strlit("typescript");
    reveal_strlit("jsx");
    reveal_strlit("tsx");
    reveal_strlit("markdown");
    reveal_strlit("config");
    reveal_strlit("c");
    reveal_strlit("cpp");
    reveal_strlit("java");
    reveal_strlit("swift");
    reveal_strlit("objective-c");
    reveal_strlit("zig");
    reveal_strlit("xml");
    reveal_strlit("powershell");
    reveal_strlit("text");
    reveal_strlit("unknown");
    if language_name(a) == language_name(b) && a != b {
        let x = language_name(a);
        let y = language_name(b);
        assert(x.len() == y.len());
        assert(x[0] == y[0]);
        assert(x.len() > 1 ==> x[1] == y[1]);
        assert(x.len() > 2 ==> x[2] == y[2]);
    }
}

#[derive(Debug, Clone, Copy, PartialEq, Eq, Structural, PartialOrd, Ord, Hash)]
pub enum FileCategory {
    Source,
    Test,
    Example,
    Bench,
    Script,
    Docs,
    Config,
    Generated,
    Vendor,
    Unknown,
}

pub open spec fn category_name(c: FileCategory) -> Seq<char> {
    match c {
        FileCategory::Source => "source"@,
        FileCategory::Test => "test"@,
        FileCategory::Example => "example"@,
        FileCategory::Bench => "bench"@,
        FileCategory::Script => "script"@,
        FileCategory::Docs => "docs"@,
        FileCategory::Config => "config"@,
        FileCategory::Generated => "generated"@,
        FileCategory::Vendor => "vendor"@,
        FileCategory::Unknown => "unknown"@,
    }
}

/// Distinct categories have distinct names.
pub proof fn lemma_category_name_injective(a: FileCategory, b: FileCategory)
    ensures
        category_name(a) == category_name(b) <==> a == b,
{
    reveal_strlit("source");
    reveal_strlit("test");
    reveal_strlit("example");
    reveal_strlit("bench");
    reveal_strlit("script");
    reveal_strlit("docs");
    reveal_strlit("config");
    reveal_strlit("generated");
    reveal_strlit("vendor");
    reveal_strlit("unknown");
    if category_name(a) == category_name(b) && a != b {
        let x = category_name(a);
        let y = category_name(b);
        assert(x.len() == y.len());
        assert(x[0] == y[0]);
        assert(x.len() > 1 ==> x[1] == y[1]);
        assert(x.len() > 2 ==> x[2] == y[2]);
    }
}

impl FileCategory {
    pub fn as_str(self) -> (r: &'static str)
        ensures
            r@ == category_name(self),
    {
        match self {
            FileCategory::Source => "source",
            FileCategory::Test => "test",
            FileCategory::Example => "example",
            FileCategory::Bench => "bench",
            FileCategory::Script => "script",
            FileCategory::Docs => "docs",
            FileCategory::Config => "config",
            FileCategory::Generated => "generated",
            FileCategory::Vendor => "vendor",
            FileCategory::Unknown => "unknown",
        }
    }
}

/// A warning raised while scanning; it may name a file, a language, both or neither.
#[derive(Debug, Clone)]
pub struct AnalysisWarning {
    pub message: String,
    pub path: Option<String>,
    pub language: Option<Language>,
}

impl AnalysisWarning {
    pub fn new(message: &str) -> (w: Self)
        ensures
            w.message@ == message@,
            w.path is None,
            w.language is None,
    {
        AnalysisWarning { message: message.to_owned(), path: None, language: None }
    }

    pub fn for_path(path: &str, message: &str) -> (w: Self)
        ensures
            w.message@ == message@,
            w.path matches Some(p) && p@ == path@,
            w.language is None,
    {
        AnalysisWarning { message: message.to_owned(), path: Some(path.to_owned()), language: None }
    }

    pub fn for_language(language: Language, message: &str) -> (w: Self)
        ensures
            w.message@ == message@,
            w.path is None,
            w.language == Some(language),
    {
        AnalysisWarning { message: message.to_owned(), path: None, language: Some(language) }
    }

    pub fn for_file(path: &str, language: Language, message: &str) -> (w: Self)
        ensures
            w.message@ == message@,
            w.path matches Some(p) && p@ == path@,
            w.language == Some(language),
    {
        AnalysisWarning {
            message: message.to_owned(),
            path: Some(path.to_owned()),
            language: Some(language),
        }
    }
}

/// `w` names the file `path` in `language` and says `message`.
pub open spec fn file_warning(w: AnalysisWarning, path: Seq<char>, language: Language, message: Seq<char>) -> bool {
    &&& w.message@ == message
    &&& w.path matches Some(p) && p@ == path
    &&& w.language == Some(language)
}

/// How the classifiers count documentation and mixed lines.
#[derive(Debug, Clone, Copy, PartialEq, Eq, Structural)]
pub struct ClassificationOptions {
    pub count_doc_comments: bool,
    pub count_docstrings_as_comments: bool,
    pub mixed_lines_as_code: bool,
}

impl Default for ClassificationOptions {
    fn default() -> (o: Self)
        ensures
            o.count_doc_comments,
            o.count_docstrings_as_comments,
            o.mixed_lines_as_code,
    {
        ClassificationOptions {
            count_doc_comments: true,
            count_docstrings_as_comments: true,
            mixed_lines_as_code: true,
        }
    }
}

/// Why one line was counted the way it was.
#[derive(Debug, Clone, PartialEq, Eq)]
pub struct LineExplanation {
    pub line_number: u32,
    pub kind: String,
    pub snippet: String,
    pub reason: String,
}

/// What a scan looks at and which files it keeps.
#[derive(Debug, Clone, PartialEq, Eq)]
pub struct ScanOptions {
    pub languages: Option<Vec<Language>>,
    pub hidden: bool,
    pub respect_gitignore: bool,
    pub include_tests: bool,
    pub include_generated: bool,
    pub include_vendor: bool,
    pub exclude_patterns: Vec<String>,
    pub generated_patterns: Vec<String>,
    pub vendor_patterns: Vec<String>,
    pub unsupported_sample_limit: Option<usize>,
    pub classification: ClassificationOptions,
}

/// The options a scan uses when none are given.
pub open spec fn is_default_options(o: ScanOptions) -> bool {
    &&& o.languages is None
    &&& !o.hidden
    &&& o.respect_gitignore
    &&& o.include_tests
    &&& !o.include_generated
    &&& !o.include_vendor
    &&& o.exclude_patterns@.len() == 0
    &&& o.generated_patterns@.len() == 0
    &&& o.vendor_patterns@.len() == 0
    &&& o.unsupported_sample_limit is None
    &&& o.classification.count_doc_comments
    &&& o.classification.count_docstrings_as_comments
    &&& o.classification.mixed_lines_as_code
}

impl Default for ScanOptions {
    fn default() -> (o: Self)
        ensures
            is_default_options(o),
    {
        ScanOptions {
            languages: None,
            hidden: false,
            respect_gitignore: true,
            include_tests: true,
            include_generated: false,
            include_vendor: false,
            exclude_patterns: Vec::new(),
            generated_patterns: Vec::new(),
            vendor_patterns: Vec::new(),
            unsupported_sample_limit: None,
            classification: ClassificationOptions::default(),
        }
    }
}

/// A language passes the language filter: listed when a list is given, known otherwise.
pub open spec fn spec_allows_language(languages: Option<Seq<Language>>, language: Language) -> bool {
    match languages {
        Some(allowed) => allowed.contains(language),
        None => language != Language::Unknown,
    }
}

/// A category is dropped when its `include_*` switch is off.
pub open spec fn spec_exclude_category(o: ScanOptions, category: FileCategory) -> bool {
    (category == FileCategory::Test && !o.include_tests) || (category == FileCategory::Generated
        && !o.include_generated) || (category == FileCategory::Vendor && !o.include_vendor)
}

pub open spec fn languages_view(l: Option<Vec<Language>>) -> Option<Seq<Language>> {
    match l {
        Some(v) => Some(v@),
        None => None,
    }
}

pub fn contains_language(list: &Vec<Language>, language: Language) -> (r: bool)
    ensures
        r == list@.contains(language),
{
    let mut i: usize = 0;
    while i < list.len()
        invariant
            i <= list.len(),
            forall|k: int| 0 <= k < i ==> list@[k] != language,
        decreases list.len() - i,
    {
        if list[i] == language {
            return true;
        }
        i += 1;
    }
    false
}

impl ScanOptions {
    pub fn allows_language(&self, language: Language) -> (r: bool)
        ensures
            r == spec_allows_language(languages_view(self.languages), language),
    {
        match &self.languages {
            Some(allowed) => contains_language(allowed, language),
            None => language != Language::Unknown,
        }
    }

    pub fn exclude_category(&self, category: FileCategory) -> (r: bool)
        ensures
            r == spec_exclude_category(*self, category),
    {
        (category == FileCategory::Test && !self.include_tests) || (category
            == FileCategory::Generated && !self.include_generated) || (category
            == FileCategory::Vendor && !self.include_vendor)
    }
}

} // verus!
