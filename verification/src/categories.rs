//! File categories: vendor, generated, test, example, bench, docs, config, script
//! or source, decided from path components, the file name, user glob patterns and
//! the first lines of the file.
use vstd::prelude::*;

use globset::{Glob, GlobSet};

use crate::paths::{components, file_name, opt_view, path_components, path_file_name};
use crate::text::{
    chars_of, contains_seq, contains_str, ends_with_str, has_prefix, has_suffix, split_lines,
    split_lines_exec, starts_with_str, str_eq,
};
use crate::lines::seqs_of;
use crate::types::{FileCategory, ScanOptions};

verus! {

/// The category of a file and why.
#[derive(Debug, Clone, PartialEq, Eq)]
pub struct CategoryAssessment {
    pub category: FileCategory,
    pub reasons: Vec<String>,
}

/// Whether `path` matches the glob `pattern`: the pattern parses with globset's
/// `Glob::new`, a `GlobSet` of it builds (`GlobSet::new`, which reports a regex over
/// its size limit as an error rather than panicking), and the set matches the path.
/// A pattern that does not parse or does not build matches nothing.
pub uninterp spec fn glob_match(pattern: Seq<char>, path: Seq<char>) -> bool;

/// A pattern short enough for globset's literal matchers: `GlobSet::new` builds an
/// Aho-Corasick automaton over a prefix or suffix literal of the pattern and unwraps
/// it, and that build fails only for a literal of about 2^31 bytes or more. At most
/// 2^28 characters are at most 2^30 bytes of UTF-8.
pub open spec fn pattern_fits(pattern: Seq<char>) -> bool {
    pattern.len() < 0x1000_0000
}

/// Every pattern of the list fits.
pub open spec fn patterns_fit(patterns: Seq<String>) -> bool {
    forall|i: int| 0 <= i < patterns.len() ==> pattern_fits(#[trigger] patterns[i]@)
}

/// The scan options' vendor and generated patterns fit.
pub open spec fn options_patterns_fit(o: ScanOptions) -> bool {
    patterns_fit(o.vendor_patterns@) && patterns_fit(o.generated_patterns@)
}

/// `Glob::new`, then `GlobSet::new` on that one glob, then `GlobSet::is_match`:
/// whether the pattern builds into a matcher and the matcher accepts the path. An
/// `Err` from either build step is read as no match.
#[verifier::external_body]
fn glob_matches(pattern: &str, path: &str) -> (r: bool)
    requires
        pattern_fits(pattern@),
    ensures
        r == glob_match(pattern@, path@),
{
    match Glob::new(pattern) {
        Ok(glob) => match GlobSet::new([glob]) {
            Ok(set) => set.is_match(path),
            Err(_) => false,
        },
        Err(_) => false,
    }
}

/// Some pattern of the list matches the path.
pub open spec fn any_glob(patterns: Seq<Seq<char>>, path: Seq<char>) -> bool {
    exists|i: int| 0 <= i < patterns.len() && glob_match(#[trigger] patterns[i], path)
}

pub fn matches_any_pattern(path: &str, patterns: &Vec<String>) -> (r: bool)
    requires
        patterns_fit(patterns@),
    ensures
        r == any_glob(patterns@.map_values(|p: String| p@), path@),
{
    let ghost ps = patterns@.map_values(|p: String| p@);
    let mut i: usize = 0;
    while i < patterns.len()
        invariant
            i <= patterns.len(),
            patterns_fit(patterns@),
            ps == patterns@.map_values(|p: String| p@),
            forall|k: int| 0 <= k < i ==> !glob_match(#[trigger] ps[k], path@),
        decreases patterns.len() - i,
    {
        assert(pattern_fits(patterns@[i as int]@));
        if glob_matches(patterns[i].as_str(), path) {
            assert(glob_match(ps[i as int], path@));
            return true;
        }
        i += 1;
    }
    false
}

pub open spec fn is_lockfile_name(name: Seq<char>) -> bool {
    has_suffix(name, ".lock"@) || name == "package-lock.json"@ || name == "pnpm-lock.yaml"@ || name
        == "pnpm-lock.yml"@ || name == "bun.lockb"@
}

pub open spec fn is_generated_name(name: Seq<char>) -> bool {
    contains_seq(name, ".generated."@) || contains_seq(name, ".gen."@) || has_suffix(name, ".pb.rs"@)
        || has_suffix(name, "_pb2.py"@) || is_lockfile_name(name)
}

pub open spec fn is_docs_name(name: Seq<char>) -> bool {
    has_suffix(name, ".md"@) || has_suffix(name, ".mdx"@) || has_suffix(name, ".markdown"@)
}

pub open spec fn is_config_name(name: Seq<char>) -> bool {
    has_suffix(name, ".toml"@) || has_suffix(name, ".yaml"@) || has_suffix(name, ".yml"@) || has_suffix(
        name,
        ".json"@,
    ) || has_suffix(name, ".jsonc"@) || has_suffix(name, ".ini"@) || has_suffix(name, ".cfg"@)
        || has_suffix(name, ".conf"@)
}

pub open spec fn is_test_name(name: Seq<char>) -> bool {
    has_suffix(name, ".test.ts"@) || has_suffix(name, ".test.tsx"@) || has_suffix(name, ".test.js"@)
        || has_suffix(name, ".test.jsx"@) || has_prefix(name, "test_"@) || has_suffix(name, "_test.py"@)
}

/// Lines joined with `\n` between them.
pub open spec fn join_lines(ls: Seq<Seq<char>>) -> Seq<char>
    decreases ls.len(),
{
    if ls.len() == 0 {
        Seq::empty()
    } else if ls.len() == 1 {
        ls[0]
    } else {
        join_lines(ls.drop_last()) + "\n"@ + ls.last()
    }
}

/// The first eight lines of a text, joined with `\n`.
pub open spec fn header_preview(text: Seq<char>) -> Seq<char> {
    let ls = split_lines(text);
    join_lines(if ls.len() > 8 {
        ls.take(8)
    } else {
        ls
    })
}

/// A generated-file marker in the first lines of a file.
pub open spec fn header_reason(text: Seq<char>) -> Option<Seq<char>> {
    let p = header_preview(text);
    if contains_seq(p, "@generated"@) {
        Some("category detected from generated-file header marker '@generated'"@)
    } else if contains_seq(p, "Code generated"@) {
        Some("category detected from generated-file header marker 'Code generated'"@)
    } else if contains_seq(p, "DO NOT EDIT"@) {
        Some("category detected from generated-file header marker 'DO NOT EDIT'"@)
    } else {
        None
    }
}

/// The category and its reason, from the path's components, the file name, the
/// file's text (when it could be read) and whether a vendor or a generated pattern
/// matched. The first rule that applies decides.
pub open spec fn category_rule(
    components: Seq<Seq<char>>,
    name: Seq<char>,
    text: Option<Seq<char>>,
    vendor_pattern: bool,
    generated_pattern: bool,
) -> (FileCategory, Seq<char>) {
    if components.contains("vendor"@) || components.contains("third_party"@) || vendor_pattern {
        (
            FileCategory::Vendor,
            if vendor_pattern {
                "category detected from user-defined vendor pattern"@
            } else {
                "category detected from vendor/third_party path component"@
            },
        )
    } else if is_generated_name(name) || generated_pattern {
        (
            FileCategory::Generated,
            if generated_pattern {
                "category detected from user-defined generated pattern"@
            } else {
                "category detected from generated-file naming convention"@
            },
        )
    } else if text is Some && header_reason(text->0) is Some {
        (FileCategory::Generated, header_reason(text->0)->0)
    } else if components.contains("tests"@) || components.contains("__tests__"@) || is_test_name(name) {
        (FileCategory::Test, "category detected from test naming/path conventions"@)
    } else if components.contains("examples"@) {
        (FileCategory::Example, "category detected from examples directory"@)
    } else if components.contains("benches"@) {
        (FileCategory::Bench, "category detected from benches directory"@)
    } else if is_docs_name(name) {
        (FileCategory::Docs, "category detected from documentation file extension"@)
    } else if is_config_name(name) {
        (FileCategory::Config, "category detected from config file extension"@)
    } else if components.contains("scripts"@) || components.contains("tools"@) {
        (FileCategory::Script, "category detected from scripts/tools directory"@)
    } else {
        (FileCategory::Source, "category fell back to source because no more specific rule matched"@)
    }
}

/// A file named `test_...` is a test file unless a vendor or generated signal
/// comes first: a vendor path or pattern, a generated name or pattern, or a
/// generated header in its text.
pub proof fn lemma_test_prefix_is_test(
    components: Seq<Seq<char>>,
    rest: Seq<char>,
    text: Option<Seq<char>>,
    vendor_pattern: bool,
    generated_pattern: bool,
)
    requires
        !(components.contains("vendor"@) || components.contains("third_party"@) || vendor_pattern),
        !is_generated_name("test_"@ + rest),
        !generated_pattern,
        !(text is Some && header_reason(text->0) is Some),
    ensures
        category_rule(components, "test_"@ + rest, text, vendor_pattern, generated_pattern).0 == FileCategory::Test,
{
    let name = "test_"@ + rest;
    reveal_strlit("test_");
    assert(name.subrange(0, 5) =~= "test_"@);
    assert(has_prefix(name, "test_"@));
}


/// A vendor signal decides the category before any other; a generated name or
/// pattern comes next, before test, example, docs and the rest.
pub proof fn lemma_category_precedence(
    components: Seq<Seq<char>>,
    name: Seq<char>,
    text: Option<Seq<char>>,
    vendor_pattern: bool,
    generated_pattern: bool,
)
    ensures
        (components.contains("vendor"@) || components.contains("third_party"@) || vendor_pattern) ==> category_rule(
            components,
            name,
            text,
            vendor_pattern,
            generated_pattern,
        ).0 == FileCategory::Vendor,
        !(components.contains("vendor"@) || components.contains("third_party"@) || vendor_pattern) && (
        is_generated_name(name) || generated_pattern) ==> category_rule(
            components,
            name,
            text,
            vendor_pattern,
            generated_pattern,
        ).0 == FileCategory::Generated,
{
}

/// An assessment says exactly `rule`: its category and that one reason.
pub open spec fn assessment_is(a: CategoryAssessment, rule: (FileCategory, Seq<char>)) -> bool {
    &&& a.category == rule.0
    &&& a.reasons@.len() == 1
    &&& a.reasons@[0]@ == rule.1
}

/// The name a path's category is judged by: its file name, or empty.
pub open spec fn name_of_path(path: Seq<char>) -> Seq<char> {
    match path_file_name(path) {
        Some(n) => n,
        None => Seq::empty(),
    }
}

pub fn has_component(components: &Vec<String>, needle: &str) -> (r: bool)
    ensures
        r == components@.map_values(|c: String| c@).contains(needle@),
{
    let ghost cs = components@.map_values(|c: String| c@);
    let mut i: usize = 0;
    while i < components.len()
        invariant
            i <= components.len(),
            cs == components@.map_values(|c: String| c@),
            forall|k: int| 0 <= k < i ==> cs[k] != needle@,
        decreases components.len() - i,
    {
        if str_eq(components[i].as_str(), needle) {
            assert(cs[i as int] == needle@);
            return true;
        }
        i += 1;
    }
    false
}

fn lockfile_name(name: &[char]) -> (r: bool)
    ensures
        r == is_lockfile_name(name@),
{
    let s = crate::text::string_from_chars(name);
    ends_with_str(name, ".lock") || str_eq(s.as_str(), "package-lock.json") || str_eq(
        s.as_str(),
        "pnpm-lock.yaml",
    ) || str_eq(s.as_str(), "pnpm-lock.yml") || str_eq(s.as_str(), "bun.lockb")
}

fn generated_name(name: &[char]) -> (r: bool)
    ensures
        r == is_generated_name(name@),
{
    contains_str(name, ".generated.") || contains_str(name, ".gen.") || ends_with_str(name, ".pb.rs")
        || ends_with_str(name, "_pb2.py") || lockfile_name(name)
}

fn docs_name(name: &[char]) -> (r: bool)
    ensures
        r == is_docs_name(name@),
{
    ends_with_str(name, ".md") || ends_with_str(name, ".mdx") || ends_with_str(name, ".markdown")
}

fn config_name(name: &[char]) -> (r: bool)
    ensures
        r == is_config_name(name@),
{
    ends_with_str(name, ".toml") || ends_with_str(name, ".yaml") || ends_with_str(name, ".yml")
        || ends_with_str(name, ".json") || ends_with_str(name, ".jsonc") || ends_with_str(
        name,
        ".ini",
    ) || ends_with_str(name, ".cfg") || ends_with_str(name, ".conf")
}

fn test_name(name: &[char]) -> (r: bool)
    ensures
        r == is_test_name(name@),
{
    ends_with_str(name, ".test.ts") || ends_with_str(name, ".test.tsx") || ends_with_str(
        name,
        ".test.js",
    ) || ends_with_str(name, ".test.jsx") || starts_with_str(name, "test_") || ends_with_str(
        name,
        "_test.py",
    )
}

/// The first eight lines of a text joined with `\n`.
pub fn preview_lines(text: &str) -> (r: Vec<char>)
    ensures
        r@ == header_preview(text@),
{
    let cs = chars_of(text);
    let lines = split_lines_exec(cs.as_slice());
    let n: usize = if lines.len() > 8 {
        8
    } else {
        lines.len()
    };
    let ghost ls = split_lines(text@);
    let ghost taken = if ls.len() > 8 {
        ls.take(8)
    } else {
        ls
    };
    assert(taken.len() == n);
    let mut out: Vec<char> = Vec::new();
    let mut i: usize = 0;
    while i < n
        invariant
            i <= n <= lines.len(),
            n == taken.len(),
            lines@.len() == ls.len(),
            forall|k: int| 0 <= k < lines@.len() ==> (#[trigger] lines@[k])@ == ls[k],
            forall|k: int| 0 <= k < taken.len() ==> taken[k] == ls[k],
            out@ == join_lines(taken.take(i as int)),
        decreases n - i,
    {
        let ghost before = out@;
        if i > 0 {
            out.push('\n');
        }
        let line = &lines[i];
        let mut j: usize = 0;
        let ghost mid = out@;
        while j < line.len()
            invariant
                j <= line.len(),
                out@ == mid + line@.take(j as int),
            decreases line.len() - j,
        {
            out.push(line[j]);
            j += 1;
            assert(out@ =~= mid + line@.take(j as int));
        }
        proof {
            assert(line@.take(line.len() as int) =~= line@);
            assert(taken.take(i + 1).drop_last() =~= taken.take(i as int));
            assert(taken.take(i + 1).last() == ls[i as int]);
            if i == 0 {
                assert(out@ =~= ls[0]);
            } else {
                assert(mid =~= before + "\n"@) by {
                    reveal_strlit("\n");
                }
            }
        }
        i += 1;
    }
    assert(taken.take(n as int) =~= taken);
    out
}

/// A generated-file marker in the first eight lines of a text.
pub fn generated_header_reason(text: &str) -> (r: Option<&'static str>)
    ensures
        match r {
            Some(s) => header_reason(text@) == Some(s@),
            None => header_reason(text@) is None,
        },
{
    let preview = preview_lines(text);
    if contains_str(preview.as_slice(), "@generated") {
        Some("category detected from generated-file header marker '@generated'")
    } else if contains_str(preview.as_slice(), "Code generated") {
        Some("category detected from generated-file header marker 'Code generated'")
    } else if contains_str(preview.as_slice(), "DO NOT EDIT") {
        Some("category detected from generated-file header marker 'DO NOT EDIT'")
    } else {
        None
    }
}

fn assessment(category: FileCategory, reason: &str) -> (a: CategoryAssessment)
    ensures
        a.category == category,
        a.reasons@.len() == 1,
        a.reasons@[0]@ == reason@,
{
    let mut reasons: Vec<String> = Vec::new();
    reasons.push(reason.to_owned());
    CategoryAssessment { category, reasons }
}

/// The category rule applied to a file name, the path's components, the file's
/// text and whether a vendor or generated pattern matched the path.
pub fn assess_category(
    name: &str,
    components: &Vec<String>,
    text: Option<&str>,
    vendor_pattern: bool,
    generated_pattern: bool,
) -> (a: CategoryAssessment)
    ensures
        assessment_is(
            a,
            category_rule(
                components@.map_values(|c: String| c@),
                name@,
                match text {
                    Some(t) => Some(t@),
                    None => None,
                },
                vendor_pattern,
                generated_pattern,
            ),
        ),
{
    let cs = chars_of(name);
    let n = cs.as_slice();
    if has_component(components, "vendor") || has_component(components, "third_party") || vendor_pattern {
        let reason = if vendor_pattern {
            "category detected from user-defined vendor pattern"
        } else {
            "category detected from vendor/third_party path component"
        };
        return assessment(FileCategory::Vendor, reason);
    }
    if generated_name(n) || generated_pattern {
        let reason = if generated_pattern {
            "category detected from user-defined generated pattern"
        } else {
            "category detected from generated-file naming convention"
        };
        return assessment(FileCategory::Generated, reason);
    }
    if let Some(t) = text {
        if let Some(reason) = generated_header_reason(t) {
            return assessment(FileCategory::Generated, reason);
        }
    }
    if has_component(components, "tests") || has_component(components, "__tests__") || test_name(n) {
        return assessment(FileCategory::Test, "category detected from test naming/path conventions");
    }
    if has_component(components, "examples") {
        return assessment(FileCategory::Example, "category detected from examples directory");
    }
    if has_component(components, "benches") {
        return assessment(FileCategory::Bench, "category detected from benches directory");
    }
    if docs_name(n) {
        return assessment(FileCategory::Docs, "category detected from documentation file extension");
    }
    if config_name(n) {
        return assessment(FileCategory::Config, "category detected from config file extension");
    }
    if has_component(components, "scripts") || has_component(components, "tools") {
        return assessment(FileCategory::Script, "category detected from scripts/tools directory");
    }
    assessment(
        FileCategory::Source,
        "category fell back to source because no more specific rule matched",
    )
}

/// The category of the file at `path`, whose text is `text` when it could be read,
/// under the scan's vendor and generated patterns.
pub fn analyze_category_with_options(path: &str, text: Option<&str>, options: &ScanOptions) -> (a:
    CategoryAssessment)
    requires
        options_patterns_fit(*options),
    ensures
        assessment_is(
            a,
            category_rule(
                path_components(path@),
                name_of_path(path@),
                match text {
                    Some(t) => Some(t@),
                    None => None,
                },
                any_glob(options.vendor_patterns@.map_values(|p: String| p@), path@),
                any_glob(options.generated_patterns@.map_values(|p: String| p@), path@),
            ),
        ),
{
    let name = match file_name(path) {
        Some(n) => n,
        None => String::new(),
    };
    proof {
        reveal_strlit("");
    }
    let parts = components(path);
    let vendor = matches_any_pattern(path, &options.vendor_patterns);
    let generated = matches_any_pattern(path, &options.generated_patterns);
    assess_category(name.as_str(), &parts, text, vendor, generated)
}

/// The category of a file under the default options (no user patterns).
pub fn analyze_category(path: &str, text: Option<&str>) -> (a: CategoryAssessment)
    ensures
        assessment_is(
            a,
            category_rule(
                path_components(path@),
                name_of_path(path@),
                match text {
                    Some(t) => Some(t@),
                    None => None,
                },
                false,
                false,
            ),
        ),
{
    let options = ScanOptions::default();
    let a = analyze_category_with_options(path, text, &options);
    assert(!any_glob(options.vendor_patterns@.map_values(|p: String| p@), path@));
    assert(!any_glob(options.generated_patterns@.map_values(|p: String| p@), path@));
    a
}

pub fn detect_category(path: &str, text: Option<&str>) -> (c: FileCategory)
    ensures
        c == category_rule(
            path_components(path@),
            name_of_path(path@),
            match text {
                Some(t) => Some(t@),
                None => None,
            },
            false,
            false,
        ).0,
{
    analyze_category(path, text).category
}

} // verus!
