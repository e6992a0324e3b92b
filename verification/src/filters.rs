//! Directories a scan never enters, and the ignore rules a scan reports.
use vstd::prelude::*;

use crate::paths::{components, path_components};
use crate::text::str_eq;
use crate::types::ScanOptions;

verus! {

/// The built-in ignore rules, as directory names with a trailing `/`.
pub open spec fn builtin_rules() -> Seq<Seq<char>> {
    seq![
        ".git/"@,
        "target/"@,
        "node_modules/"@,
        "dist/"@,
        "build/"@,
        "coverage/"@,
        ".next/"@,
        ".turbo/"@,
        ".venv/"@,
        "venv/"@,
        "__pycache__/"@,
        ".pytest_cache/"@,
        ".mypy_cache/"@,
        ".ruff_cache/"@,
    ]
}

/// The directory names the built-in rules ignore.
pub open spec fn builtin_dirs() -> Seq<Seq<char>> {
    seq![
        ".git"@,
        "target"@,
        "node_modules"@,
        "dist"@,
        "build"@,
        "coverage"@,
        ".next"@,
        ".turbo"@,
        ".venv"@,
        "venv"@,
        "__pycache__"@,
        ".pytest_cache"@,
        ".mypy_cache"@,
        ".ruff_cache"@,
    ]
}

pub fn builtin_ignore_rules() -> (r: [&'static str; 14])
    ensures
        r@.map_values(|s: &'static str| s@) == builtin_rules(),
{
    let r = [
        ".git/",
        "target/",
        "node_modules/",
        "dist/",
        "build/",
        "coverage/",
        ".next/",
        ".turbo/",
        ".venv/",
        "venv/",
        "__pycache__/",
        ".pytest_cache/",
        ".mypy_cache/",
        ".ruff_cache/",
    ];
    assert(r@.map_values(|s: &'static str| s@) =~= builtin_rules());
    r
}

fn builtin_dir_names() -> (r: [&'static str; 14])
    ensures
        r@.map_values(|s: &'static str| s@) == builtin_dirs(),
{
    let r = [
        ".git",
        "target",
        "node_modules",
        "dist",
        "build",
        "coverage",
        ".next",
        ".turbo",
        ".venv",
        "venv",
        "__pycache__",
        ".pytest_cache",
        ".mypy_cache",
        ".ruff_cache",
    ];
    assert(r@.map_values(|s: &'static str| s@) =~= builtin_dirs());
    r
}

/// Some component of the path is an ignored directory name.
pub open spec fn spec_is_ignored(path: Seq<char>) -> bool {
    exists|i: int|
        0 <= i < path_components(path).len() && builtin_dirs().contains(
            #[trigger] path_components(path)[i],
        )
}

/// Whether a path lies in (or is) a directory the built-in rules ignore.
pub fn is_ignored(path: &str) -> (r: bool)
    ensures
        r == spec_is_ignored(path@),
{
    let parts = components(path);
    let names = builtin_dir_names();
    let ghost cs = path_components(path@);
    let mut i: usize = 0;
    while i < parts.len()
        invariant
            i <= parts.len(),
            parts@.map_values(|c: String| c@) == cs,
            cs == path_components(path@),
            names@.map_values(|s: &'static str| s@) == builtin_dirs(),
            forall|k: int| 0 <= k < i ==> !builtin_dirs().contains(#[trigger] cs[k]),
        decreases parts.len() - i,
    {
        let mut j: usize = 0;
        while j < names.len()
            invariant
                i < parts.len(),
                j <= names.len(),
                parts@.map_values(|c: String| c@) == cs,
                cs == path_components(path@),
                names@.map_values(|s: &'static str| s@) == builtin_dirs(),
                forall|m: int| 0 <= m < j ==> builtin_dirs()[m] != cs[i as int],
            decreases names.len() - j,
        {
            if str_eq(parts[i].as_str(), names[j]) {
                assert(builtin_dirs()[j as int] == cs[i as int]);
                assert(builtin_dirs().contains(cs[i as int]));
                assert(parts@.map_values(|c: String| c@)[i as int] == parts@[i as int]@);
                return true;
            }
            j += 1;
        }
        assert(!builtin_dirs().contains(cs[i as int]));
        i += 1;
    }
    false
}

/// The ignore rules in effect: the built-in ones, and `.gitignore` when the scan
/// respects it.
pub fn active_ignore_rules(options: &ScanOptions) -> (r: Vec<String>)
    ensures
        r@.map_values(|s: String| s@) == if options.respect_gitignore {
            builtin_rules().push(".gitignore"@)
        } else {
            builtin_rules()
        },
{
    let rules = builtin_ignore_rules();
    let mut out: Vec<String> = Vec::new();
    let mut i: usize = 0;
    while i < rules.len()
        invariant
            i <= rules.len(),
            rules@.map_values(|s: &'static str| s@) == builtin_rules(),
            out@.map_values(|s: String| s@) == builtin_rules().take(i as int),
        decreases rules.len() - i,
    {
        let ghost before = out@;
        assert(rules@.map_values(|s: &'static str| s@)[i as int] == rules@[i as int]@);
        out.push(rules[i].to_owned());
        assert(out@.map_values(|s: String| s@) =~= before.map_values(|s: String| s@).push(rules@[i as int]@));
        i += 1;
        assert(out@.map_values(|s: String| s@) =~= builtin_rules().take(i as int));
    }
    assert(builtin_rules().take(14) =~= builtin_rules());
    if options.respect_gitignore {
        out.push(".gitignore".to_owned());
        assert(out@.map_values(|s: String| s@) =~= builtin_rules().push(".gitignore"@));
    }
    out
}

} // verus!
