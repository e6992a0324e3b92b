//! Scanning, detecting and explaining: what happens to each candidate file, how
//! the results add up, and the warnings a run leaves.
//!
//! Walking the tree and reading files is done by the caller; the analyzer gets each
//! candidate's path, its text (or why it could not be read) and its size.
use vstd::prelude::*;

use crate::backends::{backend_language, classified_by, Backend};
use crate::categories::{
    options_patterns_fit,
    analyze_category_with_options, any_glob, category_rule, name_of_path, CategoryAssessment,
};
use crate::lines::BackendFileAnalysis;
use crate::metrics::{
    add_totals, file_totals, lemma_totals_monotone, same_metrics, summary_totals, totals_fit, totals_of, zero_totals,
    FileMetrics, LanguageSummary, MetricsSummary, ScanReport, Totals,
};
use crate::paths::{extension, opt_view, path_components, path_extension};
use crate::registry::{lookup_language, LanguageBackendRegistry};
use crate::text::{
    concat2, decimal, lemma_seq_lt_asymmetric, lemma_seq_lt_irreflexive, lemma_seq_lt_total,
    lemma_seq_lt_transitive, push_decimal, push_str, seq_lt, split_lines, str_eq, str_lt,
    string_from_chars,
};
use crate::filters::{active_ignore_rules, builtin_rules};
use crate::types::{
    category_name, language_name, lemma_category_name_injective, lemma_language_name_injective,
    is_default_options, language_rank, languages_view, lemma_language_rank_injective,
    spec_allows_language, spec_exclude_category, AnalysisWarning, FileCategory, Language,
    LineExplanation, ScanOptions,
};

verus! {

/// A candidate file as the caller found it.
#[derive(Debug)]
pub struct FileInput {
    pub path: String,
    /// The file's text (invalid UTF-8 replaced), or why it could not be read.
    pub text: Result<String, String>,
    /// The file's size in bytes.
    pub bytes: u64,
}

pub open spec fn text_view(t: Result<String, String>) -> Option<Seq<char>> {
    match t {
        Ok(s) => Some(s@),
        Err(_) => None,
    }
}

/// The file's text, if read, has fewer lines than a `u32` counts.
pub open spec fn text_fits(f: FileInput) -> bool {
    f.text matches Ok(t) ==> split_lines(t@).len() < u32::MAX
}

/// Files whose text has fewer lines than a `u32` counts.
pub open spec fn inputs_fit(files: Seq<FileInput>) -> bool {
    forall|i: int|
        0 <= i < files.len() ==> text_fits(#[trigger] files[i])
}

/// What became of one candidate file.
#[derive(Debug, Clone)]
pub enum FileOutcome {
    /// No registered language: counted under its extension bucket.
    Unsupported { bucket: String },
    /// Filtered out by language or category.
    Skipped,
    /// A language without a backend.
    NoBackend { language: Language },
    /// The file could not be read.
    Failed { language: Language, error: String },
    /// Classified.
    Analyzed { analysis: BackendFileAnalysis },
}

/// The bucket an unsupported file is counted in: `.ext`, or `no extension`.
pub open spec fn bucket_of(path: Seq<char>) -> Seq<char> {
    match path_extension(path) {
        Some(e) => "."@ + e,
        None => "no extension"@,
    }
}

/// The language a registry detects for a path.
pub open spec fn detected(r: LanguageBackendRegistry, path: Seq<char>) -> Language {
    lookup_language(r.file_name_map(), r.extension_map(), crate::paths::path_file_name(path), path_extension(path))
}

/// The category a scan gives a file.
pub open spec fn scan_category(f: FileInput, o: ScanOptions) -> FileCategory {
    category_rule(
        path_components(f.path@),
        name_of_path(f.path@),
        text_view(f.text),
        any_glob(o.vendor_patterns@.map_values(|p: String| p@), f.path@),
        any_glob(o.generated_patterns@.map_values(|p: String| p@), f.path@),
    ).0
}

/// `out` is what a scan makes of file `f`.
pub open spec fn outcome_of(r: LanguageBackendRegistry, f: FileInput, o: ScanOptions, out: FileOutcome) -> bool {
    let language = detected(r, f.path@);
    if language == Language::Unknown {
        out matches FileOutcome::Unsupported { bucket } && bucket@ == bucket_of(f.path@)
    } else if !spec_allows_language(languages_view(o.languages), language) {
        out is Skipped
    } else if spec_exclude_category(o, scan_category(f, o)) {
        out is Skipped
    } else if !r.backend_table().contains_key(language) {
        out == FileOutcome::NoBackend { language }
    } else {
        match f.text {
            Err(e) => out matches FileOutcome::Failed { language: l, error } && l == language && error@ == e@,
            Ok(t) => out matches FileOutcome::Analyzed { analysis } && classified_by(
                r.backend_table()[language],
                analysis,
                f.path@,
                t@,
                f.bytes,
                scan_category(f, o),
                o.classification,
            ),
        }
    }
}

/// The analyzer: a registry of languages and backends.
#[derive(Debug, Clone)]
pub struct Analyzer {
    registry: LanguageBackendRegistry,
}

impl Analyzer {
    pub closed spec fn registry_view(&self) -> LanguageBackendRegistry {
        self.registry
    }

    pub closed spec fn wf(&self) -> bool {
        self.registry.wf()
    }

    pub fn new(registry: LanguageBackendRegistry) -> (a: Self)
        requires
            registry.wf(),
        ensures
            a.wf(),
            a.registry_view() == registry,
    {
        Analyzer { registry }
    }

    pub fn registry(&self) -> (r: &LanguageBackendRegistry)
        ensures
            *r == self.registry_view(),
    {
        &self.registry
    }

    /// What a scan makes of one candidate file.
    pub fn scan_file(&self, file: &FileInput, options: &ScanOptions) -> (out: FileOutcome)
        requires
            self.wf(),
            options_patterns_fit(*options),
            text_fits(*file),
        ensures
            outcome_of(self.registry_view(), *file, *options, out),
    {
        let path = file.path.as_str();
        let language = self.registry.detect_language(path);
        if language == Language::Unknown {
            let bucket = match extension(path) {
                Some(e) => concat2(".", e.as_str()),
                None => "no extension".to_owned(),
            };
            return FileOutcome::Unsupported { bucket };
        }
        if !options.allows_language(language) {
            return FileOutcome::Skipped;
        }
        let text: Option<&str> = match &file.text {
            Ok(t) => Some(t.as_str()),
            Err(_) => None,
        };
        let category = analyze_category_with_options(path, text, options).category;
        if options.exclude_category(category) {
            return FileOutcome::Skipped;
        }
        let backend = match self.registry.backend(language) {
            Some(b) => b,
            None => {
                return FileOutcome::NoBackend { language };
            },
        };
        match &file.text {
            Err(e) => FileOutcome::Failed { language, error: e.clone() },
            Ok(t) => {
                let analysis = backend.classify_file(
                    path,
                    t.as_str(),
                    file.bytes,
                    category,
                    &options.classification,
                );
                FileOutcome::Analyzed { analysis }
            },
        }
    }
}

// ---------------------------------------------------------------------------
// The unsupported-extension warning
// ---------------------------------------------------------------------------

/// Occurrences of `b` in `s`.
pub open spec fn occurrences(s: Seq<Seq<char>>, b: Seq<char>) -> nat
    decreases s.len(),
{
    if s.len() == 0 {
        0
    } else {
        occurrences(s.drop_last(), b) + if s.last() == b {
            1nat
        } else {
            0nat
        }
    }
}

/// More files first, then buckets in name order.
pub open spec fn entry_before(a: (Seq<char>, nat), b: (Seq<char>, nat)) -> bool {
    a.1 > b.1 || (a.1 == b.1 && seq_lt(a.0, b.0))
}

/// `entries` lists each bucket of `buckets` once with its count, in breakdown order.
pub open spec fn breakdown_entries(entries: Seq<(Seq<char>, nat)>, buckets: Seq<Seq<char>>) -> bool {
    &&& forall|i: int|
        0 <= i < entries.len() ==> buckets.contains((#[trigger] entries[i]).0) && entries[i].1
            == occurrences(buckets, entries[i].0)
    &&& forall|b: Seq<char>| buckets.contains(b) ==> exists|i: int| 0 <= i < entries.len() && (#[trigger] entries[i]).0 == b
    &&& forall|i: int, j: int|
        0 <= i < j < entries.len() ==> entry_before(#[trigger] entries[i], #[trigger] entries[j])
}

/// `bucket: count` items joined with `, `.
pub open spec fn entries_text(entries: Seq<(Seq<char>, nat)>) -> Seq<char>
    decreases entries.len(),
{
    if entries.len() == 0 {
        Seq::empty()
    } else {
        let rest = entries_text(entries.drop_last());
        let item = entries.last().0 + ": "@ + decimal(entries.last().1);
        if entries.len() == 1 {
            item
        } else {
            rest + ", "@ + item
        }
    }
}

/// The warning text for `n` skipped files with the given breakdown.
pub open spec fn unsupported_text(n: nat, breakdown: Seq<char>) -> Seq<char> {
    if n == 1 {
        "1 file with an unsupported extension was skipped ("@ + breakdown + ")"@
    } else {
        decimal(n) + " files with unsupported extensions were skipped ("@ + breakdown + ")"@
    }
}

pub open spec fn count_entry_view(e: (String, usize)) -> (Seq<char>, nat) {
    (e.0@, e.1 as nat)
}

pub open spec fn count_views(v: Seq<(String, usize)>) -> Seq<(Seq<char>, nat)> {
    v.map_values(|e: (String, usize)| count_entry_view(e))
}

proof fn lemma_occurrences_push(s: Seq<Seq<char>>, x: Seq<char>, b: Seq<char>)
    ensures
        occurrences(s.push(x), b) == occurrences(s, b) + if x == b {
            1nat
        } else {
            0nat
        },
{
    assert(s.push(x).drop_last() =~= s);
}

proof fn lemma_occurrences_bound(s: Seq<Seq<char>>, b: Seq<char>)
    ensures
        occurrences(s, b) <= s.len(),
        s.contains(b) ==> occurrences(s, b) >= 1,
        !s.contains(b) ==> occurrences(s, b) == 0,
    decreases s.len(),
{
    if s.len() > 0 {
        lemma_occurrences_bound(s.drop_last(), b);
        if !s.contains(b) {
            assert(s.last() != b) by {
                assert(s[s.len() - 1] == s.last());
            }
            assert(!s.drop_last().contains(b)) by {
                if s.drop_last().contains(b) {
                    let i = choose|i: int| 0 <= i < s.drop_last().len() && s.drop_last()[i] == b;
                    assert(s[i] == b);
                }
            }
        }
        if s.contains(b) && s.last() != b {
            let i = choose|i: int| 0 <= i < s.len() && s[i] == b;
            assert(s.drop_last()[i] == b);
        }
    }
}

/// Counts one more file in `bucket`.
fn count_bucket(counts: &mut Vec<(String, usize)>, bucket: String, seen: Ghost<Seq<Seq<char>>>)
    requires
        seen@.len() < usize::MAX,
        forall|i: int, j: int| 0 <= i < j < old(counts)@.len() ==> (#[trigger] old(counts)@[i]).0@ != (#[trigger] old(counts)@[j]).0@,
        forall|i: int| 0 <= i < old(counts)@.len() ==> seen@.contains((#[trigger] old(counts)@[i]).0@) && old(counts)@[i].1 == occurrences(seen@, old(counts)@[i].0@),
        forall|b: Seq<char>| seen@.contains(b) ==> exists|i: int| 0 <= i < old(counts)@.len() && (#[trigger] old(counts)@[i]).0@ == b,
    ensures
        forall|i: int, j: int| 0 <= i < j < final(counts)@.len() ==> (#[trigger] final(counts)@[i]).0@ != (#[trigger] final(counts)@[j]).0@,
        forall|i: int| 0 <= i < final(counts)@.len() ==> seen@.push(bucket@).contains((#[trigger] final(counts)@[i]).0@) && final(counts)@[i].1 == occurrences(seen@.push(bucket@), final(counts)@[i].0@),
        forall|b: Seq<char>| seen@.push(bucket@).contains(b) ==> exists|i: int| 0 <= i < final(counts)@.len() && (#[trigger] final(counts)@[i]).0@ == b,
{
    let ghost before = counts@;
    let ghost now = seen@.push(bucket@);
    let mut i: usize = 0;
    while i < counts.len() && !str_eq(counts[i].0.as_str(), bucket.as_str())
        invariant
            i <= counts.len(),
            counts@ == before,
            forall|k: int| 0 <= k < i ==> (#[trigger] counts@[k]).0@ != bucket@,
        decreases counts.len() - i,
    {
        i += 1;
    }
    proof {
        assert forall|b: Seq<char>| #[trigger] occurrences(now, b) == occurrences(seen@, b) + if bucket@ == b {
            1nat
        } else {
            0nat
        } by {
            lemma_occurrences_push(seen@, bucket@, b);
        }
        assert forall|b: Seq<char>| #[trigger] now.contains(b) <==> (seen@.contains(b) || b == bucket@) by {
            if now.contains(b) && b != bucket@ {
                let k = choose|k: int| 0 <= k < now.len() && now[k] == b;
                assert(seen@[k] == b);
            }
            if seen@.contains(b) {
                let k = choose|k: int| 0 <= k < seen@.len() && seen@[k] == b;
                assert(now[k] == b);
            }
            if b == bucket@ {
                assert(now[seen@.len() as int] == b);
            }
        }
    }
    if i < counts.len() {
        let c = counts[i].1;
        proof {
            lemma_occurrences_bound(seen@, bucket@);
        }
        let name = counts[i].0.clone();
        counts.set(i, (name, c + 1));
        proof {
            assert forall|a: int, b: int| 0 <= a < b < counts@.len() implies (#[trigger] counts@[a]).0@ != (#[trigger] counts@[b]).0@ by {
                assert(before[a].0@ != before[b].0@);
            }
            assert forall|k: int| 0 <= k < counts@.len() implies now.contains((#[trigger] counts@[k]).0@) && counts@[k].1 == occurrences(now, counts@[k].0@) by {
                if k != i {
                    assert(counts@[k] == before[k]);
                    assert(before[k].0@ != before[i as int].0@);
                }
            }
            assert forall|b: Seq<char>| now.contains(b) implies exists|k: int| 0 <= k < counts@.len() && (#[trigger] counts@[k]).0@ == b by {
                if b == bucket@ {
                    assert(counts@[i as int].0@ == b);
                } else {
                    let k = choose|k: int| 0 <= k < before.len() && (#[trigger] before[k]).0@ == b;
                    assert(counts@[k].0@ == b);
                }
            }
        }
    } else {
        proof {
            lemma_occurrences_bound(seen@, bucket@);
            assert(!seen@.contains(bucket@)) by {
                if seen@.contains(bucket@) {
                    let k = choose|k: int| 0 <= k < before.len() && (#[trigger] before[k]).0@ == bucket@;
                    assert(counts@[k].0@ != bucket@);
                }
            }
            assert(occurrences(seen@, bucket@) == 0);
        }
        counts.push((bucket, 1));
        proof {
            assert forall|a: int, b: int| 0 <= a < b < counts@.len() implies (#[trigger] counts@[a]).0@ != (#[trigger] counts@[b]).0@ by {
                if b < before.len() {
                    assert(before[a].0@ != before[b].0@);
                } else {
                    assert(seen@.contains(before[a].0@));
                }
            }
            assert forall|k: int| 0 <= k < counts@.len() implies now.contains((#[trigger] counts@[k]).0@) && counts@[k].1 == occurrences(now, counts@[k].0@) by {
                if k < before.len() {
                    assert(counts@[k] == before[k]);
                    assert(seen@.contains(before[k].0@));
                }
            }
            assert forall|b: Seq<char>| now.contains(b) implies exists|k: int| 0 <= k < counts@.len() && (#[trigger] counts@[k]).0@ == b by {
                if b == bucket@ {
                    assert(counts@[before.len() as int].0@ == b);
                } else {
                    let k = choose|k: int| 0 <= k < before.len() && (#[trigger] before[k]).0@ == b;
                    assert(counts@[k].0@ == b);
                }
            }
        }
    }
}

proof fn lemma_entry_total(a: (Seq<char>, nat), b: (Seq<char>, nat))
    ensures
        a.0 != b.0 ==> entry_before(a, b) || entry_before(b, a),
        entry_before(a, b) ==> !entry_before(b, a),
        !entry_before(a, a),
{
    lemma_seq_lt_total(a.0, b.0);
    lemma_seq_lt_asymmetric(a.0, b.0);
    lemma_seq_lt_irreflexive(a.0);
}

proof fn lemma_entry_transitive(a: (Seq<char>, nat), b: (Seq<char>, nat), c: (Seq<char>, nat))
    ensures
        entry_before(a, b) && entry_before(b, c) ==> entry_before(a, c),
{
    lemma_seq_lt_transitive(a.0, b.0, c.0);
}

fn entry_lt(a: &(String, usize), b: &(String, usize)) -> (r: bool)
    ensures
        r == entry_before(count_entry_view(*a), count_entry_view(*b)),
{
    a.1 > b.1 || (a.1 == b.1 && str_lt(a.0.as_str(), b.0.as_str()))
}

#[verifier::opaque]
pub open spec fn strictly_ordered(v: Seq<(Seq<char>, nat)>) -> bool {
    forall|i: int, j: int| 0 <= i < j < v.len() ==> entry_before(#[trigger] v[i], #[trigger] v[j])
}

/// `v` holds exactly the first `k` entries of `src` (each once, in any order).
#[verifier::opaque]
pub open spec fn holds_prefix(v: Seq<(Seq<char>, nat)>, src: Seq<(Seq<char>, nat)>, k: int) -> bool {
    &&& forall|i: int| 0 <= i < v.len() ==> exists|j: int| 0 <= j < k && #[trigger] v[i] == src[j]
    &&& forall|j: int| 0 <= j < k ==> exists|i: int| 0 <= i < v.len() && v[i] == #[trigger] src[j]
}

proof fn lemma_insert_ordered(before: Seq<(Seq<char>, nat)>, p: int, x: (Seq<char>, nat))
    requires
        strictly_ordered(before),
        forall|m: int| 0 <= m < before.len() ==> (#[trigger] before[m]).0 != x.0,
        0 <= p <= before.len(),
        forall|m: int| 0 <= m < p ==> !entry_before(x, #[trigger] before[m]),
        p < before.len() ==> entry_before(x, before[p]),
    ensures
        strictly_ordered(before.insert(p, x)),
{
    reveal(strictly_ordered);
    assert forall|m: int| 0 <= m < p implies entry_before(#[trigger] before[m], x) by {
        lemma_entry_total(before[m], x);
    }
    let n = before.insert(p, x);
    assert forall|a: int, b: int| 0 <= a < b < n.len() implies entry_before(#[trigger] n[a], #[trigger] n[b]) by {
        if b < p {
            assert(n[a] == before[a] && n[b] == before[b]);
        } else if b == p {
            assert(n[a] == before[a]);
        } else if a == p {
            assert(n[b] == before[b - 1]);
            if b - 1 > p {
                lemma_entry_transitive(x, before[p], before[b - 1]);
            }
        } else if a < p {
            assert(n[a] == before[a] && n[b] == before[b - 1]);
        } else {
            assert(n[a] == before[a - 1] && n[b] == before[b - 1]);
        }
    }
}

proof fn lemma_insert_holds(before: Seq<(Seq<char>, nat)>, p: int, src: Seq<(Seq<char>, nat)>, k: int)
    requires
        0 <= k < src.len(),
        holds_prefix(before, src, k),
        0 <= p <= before.len(),
    ensures
        holds_prefix(before.insert(p, src[k]), src, k + 1),
{
    reveal(holds_prefix);
    let n = before.insert(p, src[k]);
    assert forall|i: int| 0 <= i < n.len() implies exists|j: int| 0 <= j < k + 1 && #[trigger] n[i] == src[j] by {
        if i == p {
            assert(n[i] == src[k]);
        } else {
            let i2 = if i < p { i } else { i - 1 };
            assert(n[i] == before[i2]);
            let j = choose|j: int| 0 <= j < k && before[i2] == src[j];
            assert(n[i] == src[j]);
        }
    }
    assert forall|j: int| 0 <= j < k + 1 implies exists|i: int| 0 <= i < n.len() && n[i] == #[trigger] src[j] by {
        if j == k {
            assert(n[p] == src[j]);
        } else {
            let i = choose|i: int| 0 <= i < before.len() && before[i] == src[j];
            let i2 = if i < p { i } else { i + 1 };
            assert(n[i2] == before[i]);
        }
    }
}

proof fn lemma_insert_entry(before: Seq<(Seq<char>, nat)>, p: int, src: Seq<(Seq<char>, nat)>, k: int)
    requires
        0 <= k < src.len(),
        forall|i: int, j: int| 0 <= i < j < src.len() ==> (#[trigger] src[i]).0 != (#[trigger] src[j]).0,
        strictly_ordered(before),
        holds_prefix(before, src, k),
        0 <= p <= before.len(),
        forall|m: int| 0 <= m < p ==> !entry_before(src[k], #[trigger] before[m]),
        p < before.len() ==> entry_before(src[k], before[p]),
    ensures
        strictly_ordered(before.insert(p, src[k])),
        holds_prefix(before.insert(p, src[k]), src, k + 1),
{
    reveal(holds_prefix);
    assert forall|m: int| 0 <= m < before.len() implies (#[trigger] before[m]).0 != src[k].0 by {
        let j = choose|j: int| 0 <= j < k && before[m] == src[j];
        assert(src[j].0 != src[k].0);
    }
    lemma_insert_ordered(before, p, src[k]);
    lemma_insert_holds(before, p, src, k);
}

/// The counted buckets in breakdown order.
fn sort_counts(counts: &Vec<(String, usize)>) -> (sorted: Vec<(String, usize)>)
    requires
        forall|i: int, j: int| 0 <= i < j < counts@.len() ==> (#[trigger] counts@[i]).0@ != (#[trigger] counts@[j]).0@,
    ensures
        strictly_ordered(count_views(sorted@)),
        holds_prefix(count_views(sorted@), count_views(counts@), counts@.len() as int),
{
    let ghost src = count_views(counts@);
    assert forall|i: int, j: int| 0 <= i < j < src.len() implies (#[trigger] src[i]).0 != (#[trigger] src[j]).0 by {
        assert(counts@[i].0@ != counts@[j].0@);
    }
    let mut sorted: Vec<(String, usize)> = Vec::new();
    proof {
        reveal(strictly_ordered);
        reveal(holds_prefix);
    }
    let mut k: usize = 0;
    while k < counts.len()
        invariant
            k <= counts.len(),
            src == count_views(counts@),
            forall|i: int, j: int| 0 <= i < j < src.len() ==> (#[trigger] src[i]).0 != (#[trigger] src[j]).0,
            strictly_ordered(count_views(sorted@)),
            holds_prefix(count_views(sorted@), src, k as int),
        decreases counts.len() - k,
    {
        let x = (counts[k].0.clone(), counts[k].1);
        assert(count_entry_view(x) == src[k as int]);
        let mut p: usize = 0;
        while p < sorted.len() && !entry_lt(&x, &sorted[p])
            invariant
                p <= sorted.len(),
                count_entry_view(x) == src[k as int],
                forall|m: int| 0 <= m < p ==> !entry_before(src[k as int], #[trigger] count_views(sorted@)[m]),
            decreases sorted.len() - p,
        {
            p += 1;
        }
        let ghost before = count_views(sorted@);
        proof {
            lemma_insert_entry(before, p as int, src, k as int);
        }
        sorted.insert(p, x);
        assert(count_views(sorted@) =~= before.insert(p as int, src[k as int]));
        k += 1;
    }
    sorted
}

/// The breakdown items, `bucket: count` joined with `, `.
fn breakdown_text(sorted: &Vec<(String, usize)>) -> (s: String)
    ensures
        s@ == entries_text(count_views(sorted@)),
{
    let mut out: Vec<char> = Vec::new();
    let mut i: usize = 0;
    while i < sorted.len()
        invariant
            i <= sorted.len(),
            out@ == entries_text(count_views(sorted@).take(i as int)),
        decreases sorted.len() - i,
    {
        let ghost t = count_views(sorted@).take(i + 1);
        proof {
            assert(t.drop_last() =~= count_views(sorted@).take(i as int));
            assert(t.last() == count_entry_view(sorted@[i as int]));
        }
        if i > 0 {
            push_str(&mut out, ", ");
        }
        push_str(&mut out, sorted[i].0.as_str());
        push_str(&mut out, ": ");
        push_decimal(&mut out, sorted[i].1 as u64);
        i += 1;
    }
    assert(count_views(sorted@).take(sorted@.len() as int) =~= count_views(sorted@));
    string_from_chars(out.as_slice())
}

/// Counts as collected for a list of buckets: one entry per bucket with its count.
pub open spec fn counts_of(counts: Seq<(String, usize)>, buckets: Seq<Seq<char>>) -> bool {
    &&& forall|i: int, j: int| 0 <= i < j < counts.len() ==> (#[trigger] counts[i]).0@ != (#[trigger] counts[j]).0@
    &&& forall|i: int| 0 <= i < counts.len() ==> buckets.contains((#[trigger] counts[i]).0@) && counts[i].1 == occurrences(buckets, counts[i].0@)
    &&& forall|b: Seq<char>| buckets.contains(b) ==> exists|i: int| 0 <= i < counts.len() && (#[trigger] counts[i]).0@ == b
}

/// The one warning that sums up the files skipped for an unsupported extension.
pub open spec fn unsupported_warning_is(w: AnalysisWarning, buckets: Seq<Seq<char>>) -> bool {
    &&& w.path is None
    &&& w.language is None
    &&& exists|e: Seq<(Seq<char>, nat)>|
        breakdown_entries(e, buckets) && w.message@ == unsupported_text(
            buckets.len(),
            entries_text(e),
        )
}

/// The summary warning for the unsupported files counted in `counts`, if any.
pub fn unsupported_extension_warning(
    counts: &Vec<(String, usize)>,
    total: usize,
    buckets: Ghost<Seq<Seq<char>>>,
) -> (r: Option<AnalysisWarning>)
    requires
        counts_of(counts@, buckets@),
        total == buckets@.len(),
    ensures
        r is None <==> total == 0,
        r matches Some(w) ==> unsupported_warning_is(w, buckets@),
{
    if total == 0 {
        return None;
    }
    let sorted = sort_counts(counts);
    let breakdown = breakdown_text(&sorted);
    let ghost e = count_views(sorted@);
    proof {
        reveal(strictly_ordered);
        reveal(holds_prefix);
        let src = count_views(counts@);
        assert forall|i: int| 0 <= i < e.len() implies buckets@.contains((#[trigger] e[i]).0) && e[i].1 == occurrences(buckets@, e[i].0) by {
            let j = choose|j: int| 0 <= j < counts@.len() && e[i] == src[j];
            assert(src[j] == count_entry_view(counts@[j]));
        }
        assert forall|b: Seq<char>| buckets@.contains(b) implies exists|i: int| 0 <= i < e.len() && (#[trigger] e[i]).0 == b by {
            let j = choose|j: int| 0 <= j < counts@.len() && (#[trigger] counts@[j]).0@ == b;
            assert(src[j] == count_entry_view(counts@[j]));
            let i = choose|i: int| 0 <= i < e.len() && e[i] == src[j];
            assert(e[i].0 == b);
        }
        assert(breakdown_entries(e, buckets@));
    }
    let mut out: Vec<char> = Vec::new();
    if total == 1 {
        push_str(&mut out, "1 file with an unsupported extension was skipped (");
    } else {
        push_decimal(&mut out, total as u64);
        push_str(&mut out, " files with unsupported extensions were skipped (");
    }
    push_str(&mut out, breakdown.as_str());
    push_str(&mut out, ")");
    let message = string_from_chars(out.as_slice());
    assert(message@ == unsupported_text(buckets@.len(), entries_text(e)));
    Some(AnalysisWarning::new(message.as_str()))
}

// ---------------------------------------------------------------------------
// Totals by language
// ---------------------------------------------------------------------------

/// The files of one language, in order.
pub open spec fn of_language(files: Seq<FileMetrics>, l: Language) -> Seq<FileMetrics>
    decreases files.len(),
{
    if files.len() == 0 {
        Seq::empty()
    } else if files.last().language == l {
        of_language(files.drop_last(), l).push(files.last())
    } else {
        of_language(files.drop_last(), l)
    }
}

/// Every field of `a` is at most that of `b`.
pub open spec fn totals_le(a: Totals, b: Totals) -> bool {
    &&& a.files <= b.files
    &&& a.lines <= b.lines
    &&& a.code <= b.code
    &&& a.mixed <= b.mixed
    &&& a.comment <= b.comment
    &&& a.doc <= b.doc
    &&& a.blank <= b.blank
    &&& a.sloc <= b.sloc
    &&& a.bytes <= b.bytes
    &&& a.parse_errors <= b.parse_errors
}

proof fn lemma_of_language_le(files: Seq<FileMetrics>, l: Language)
    ensures
        totals_le(totals_of(of_language(files, l)), totals_of(files)),
    decreases files.len(),
{
    if files.len() > 0 {
        lemma_of_language_le(files.drop_last(), l);
        if files.last().language == l {
            assert(of_language(files, l).drop_last() =~= of_language(files.drop_last(), l));
        }
    }
}

proof fn lemma_of_language_push(files: Seq<FileMetrics>, f: FileMetrics, l: Language)
    ensures
        of_language(files.push(f), l) == if f.language == l {
            of_language(files, l).push(f)
        } else {
            of_language(files, l)
        },
{
    assert(files.push(f).drop_last() =~= files);
}

/// The per-language totals of a list of files: one entry per language present, in
/// language order, each with the totals of that language's files.
pub open spec fn by_language_of(groups: Seq<LanguageSummary>, files: Seq<FileMetrics>) -> bool {
    &&& forall|i: int, j: int|
        0 <= i < j < groups.len() ==> language_rank((#[trigger] groups[i]).language) < language_rank(
            (#[trigger] groups[j]).language,
        )
    &&& forall|i: int|
        0 <= i < groups.len() ==> summary_totals((#[trigger] groups[i]).summary) == totals_of(
            of_language(files, groups[i].language),
        ) && of_language(files, groups[i].language).len() > 0
    &&& forall|k: int| 0 <= k < files.len() ==> exists|i: int| 0 <= i < groups.len() && (#[trigger] groups[i]).language == (#[trigger] files[k]).language
}

proof fn lemma_of_language_nonempty(files: Seq<FileMetrics>, k: int)
    requires
        0 <= k < files.len(),
    ensures
        of_language(files, files[k].language).len() > 0,
    decreases files.len(),
{
    if k < files.len() - 1 {
        lemma_of_language_nonempty(files.drop_last(), k);
        let l = files[k].language;
        assert(files.drop_last()[k] == files[k]);
    }
}

/// Adds one file to the per-language totals.
fn add_to_language(groups: &mut Vec<LanguageSummary>, file: &FileMetrics, files: Ghost<Seq<FileMetrics>>)
    requires
        by_language_of(old(groups)@, files@),
        totals_fit(totals_of(files@.push(*file))),
    ensures
        by_language_of(final(groups)@, files@.push(*file)),
{
    let ghost before = groups@;
    let ghost all = files@.push(*file);
    let l = file.language;
    proof {
        assert forall|m: Language| #[trigger] of_language(all, m) == if file.language == m {
            of_language(files@, m).push(*file)
        } else {
            of_language(files@, m)
        } by {
            lemma_of_language_push(files@, *file, m);
        }
        lemma_of_language_le(all, l);
    }
    let mut p: usize = 0;
    while p < groups.len() && groups[p].language.rank() < l.rank()
        invariant
            p <= groups.len(),
            groups@ == before,
            forall|k: int| 0 <= k < p ==> language_rank((#[trigger] groups@[k]).language) < language_rank(l),
        decreases groups.len() - p,
    {
        p += 1;
    }
    if p < groups.len() && groups[p].language == l {
        let mut entry = groups[p];
        proof {
            assert(entry == groups@[p as int]);
            assert(summary_totals(entry.summary) == totals_of(of_language(files@, l)));
            assert(totals_of(of_language(all, l)) == add_totals(totals_of(of_language(files@, l)), file_totals(*file))) by {
                assert(of_language(all, l).drop_last() =~= of_language(files@, l));
            }
            lemma_totals_monotone(of_language(all, l));
        }
        entry.summary.add_file(file);
        groups.set(p, entry);
        proof {
            let n = groups@;
            assert forall|a: int, b: int| 0 <= a < b < n.len() implies language_rank((#[trigger] n[a]).language) < language_rank((#[trigger] n[b]).language) by {
                assert(n[a].language == before[a].language && n[b].language == before[b].language);
            }
            assert forall|i: int| 0 <= i < n.len() implies summary_totals((#[trigger] n[i]).summary) == totals_of(of_language(all, n[i].language)) && of_language(all, n[i].language).len() > 0 by {
                if i != p {
                    assert(n[i] == before[i]);
                    assert(before[i].language != l) by {
                        if i < p {
                        } else {
                            assert(language_rank(before[p as int].language) < language_rank(before[i].language));
                        }
                    }
                }
            }
            assert forall|k: int| 0 <= k < all.len() implies exists|i: int| 0 <= i < n.len() && (#[trigger] n[i]).language == (#[trigger] all[k]).language by {
                if k < files@.len() {
                    assert(all[k] == files@[k]);
                    let i = choose|i: int| 0 <= i < before.len() && (#[trigger] before[i]).language == files@[k].language;
                    assert(n[i].language == before[i].language);
                } else {
                    assert(n[p as int].language == all[k].language);
                }
            }
        }
    } else {
        let mut summary = MetricsSummary::default();
        proof {
            assert(of_language(files@, l).len() == 0) by {
                if of_language(files@, l).len() > 0 {
                    lemma_of_language_member(files@, l);
                    let k = choose|k: int| 0 <= k < files@.len() && files@[k].language == l;
                    let i = choose|i: int| 0 <= i < before.len() && (#[trigger] before[i]).language == files@[k].language;
                    if i < p {
                    } else if i == p {
                    } else {
                        assert(language_rank(before[p as int].language) < language_rank(before[i].language));
                    }
                    lemma_language_rank_injective(before[i].language, l);
                }
            }
            assert(of_language(all, l) =~= seq![*file]) by {
                assert(of_language(files@, l) =~= Seq::<FileMetrics>::empty());
            }
            assert(totals_of(seq![*file]) == add_totals(crate::metrics::zero_totals(), file_totals(*file))) by {
                assert(seq![*file].drop_last() =~= Seq::<FileMetrics>::empty());
                assert(totals_of(Seq::<FileMetrics>::empty()) == crate::metrics::zero_totals());
            }
            lemma_totals_monotone(seq![*file]);
        }
        summary.add_file(file);
        groups.insert(p, LanguageSummary { language: l, summary });
        proof {
            let n = groups@;
            assert forall|a: int, b: int| 0 <= a < b < n.len() implies language_rank((#[trigger] n[a]).language) < language_rank((#[trigger] n[b]).language) by {
                if b < p {
                    assert(n[a] == before[a] && n[b] == before[b]);
                } else if b == p {
                    assert(n[a] == before[a]);
                } else if a == p {
                    assert(n[b] == before[b - 1]);
                    assert(language_rank(l) <= language_rank(before[p as int].language));
                    if language_rank(l) == language_rank(before[p as int].language) {
                        lemma_language_rank_injective(l, before[p as int].language);
                    }
                    if b - 1 > p {
                        assert(language_rank(before[p as int].language) < language_rank(before[b - 1].language));
                    }
                } else if a < p {
                    assert(n[a] == before[a] && n[b] == before[b - 1]);
                } else {
                    assert(n[a] == before[a - 1] && n[b] == before[b - 1]);
                }
            }
            assert forall|i: int| 0 <= i < n.len() implies summary_totals((#[trigger] n[i]).summary) == totals_of(of_language(all, n[i].language)) && of_language(all, n[i].language).len() > 0 by {
                if i != p {
                    let i2 = if i < p { i } else { i - 1 };
                    assert(n[i] == before[i2]);
                    assert(before[i2].language != l) by {
                        if before[i2].language == l {
                            assert(of_language(files@, l).len() > 0);
                        }
                    }
                }
            }
            assert forall|k: int| 0 <= k < all.len() implies exists|i: int| 0 <= i < n.len() && (#[trigger] n[i]).language == (#[trigger] all[k]).language by {
                if k < files@.len() {
                    assert(all[k] == files@[k]);
                    let i = choose|i: int| 0 <= i < before.len() && (#[trigger] before[i]).language == files@[k].language;
                    let i2 = if i < p { i } else { i + 1 };
                    assert(n[i2] == before[i]);
                } else {
                    assert(n[p as int].language == all[k].language);
                }
            }
        }
    }
}

proof fn lemma_of_language_member(files: Seq<FileMetrics>, l: Language)
    requires
        of_language(files, l).len() > 0,
    ensures
        exists|k: int| 0 <= k < files.len() && files[k].language == l,
    decreases files.len(),
{
    if files.len() > 0 {
        if files.last().language == l {
            assert(files[files.len() - 1].language == l);
        } else {
            lemma_of_language_member(files.drop_last(), l);
            let k = choose|k: int| 0 <= k < files.drop_last().len() && files.drop_last()[k].language == l;
            assert(files[k] == files.drop_last()[k]);
        }
    }
}

// ---------------------------------------------------------------------------
// Scanning
// ---------------------------------------------------------------------------

/// A warning as plain values: message, path, language.
pub open spec fn warning_view(w: AnalysisWarning) -> (Seq<char>, Option<Seq<char>>, Option<Language>) {
    (w.message@, opt_view(w.path), w.language)
}

pub open spec fn warning_views(ws: Seq<AnalysisWarning>) -> Seq<(Seq<char>, Option<Seq<char>>, Option<Language>)> {
    ws.map_values(|w: AnalysisWarning| warning_view(w))
}

/// The metrics of the analysed files, in order.
pub open spec fn analyzed_of(outs: Seq<FileOutcome>) -> Seq<FileMetrics>
    decreases outs.len(),
{
    if outs.len() == 0 {
        Seq::empty()
    } else {
        let rest = analyzed_of(outs.drop_last());
        match outs.last() {
            FileOutcome::Analyzed { analysis } => rest.push(analysis.metrics),
            _ => rest,
        }
    }
}

/// The buckets of the unsupported files, in order.
pub open spec fn buckets_of(outs: Seq<FileOutcome>) -> Seq<Seq<char>>
    decreases outs.len(),
{
    if outs.len() == 0 {
        Seq::empty()
    } else {
        let rest = buckets_of(outs.drop_last());
        match outs.last() {
            FileOutcome::Unsupported { bucket } => rest.push(bucket@),
            _ => rest,
        }
    }
}

/// The paths of the unsupported files among the first `n`, in order.
pub open spec fn unsupported_paths(files: Seq<FileInput>, outs: Seq<FileOutcome>, n: int) -> Seq<Seq<char>>
    decreases n,
{
    if n <= 0 {
        Seq::empty()
    } else {
        let rest = unsupported_paths(files, outs, n - 1);
        if outs[n - 1] is Unsupported {
            rest.push(files[n - 1].path@)
        } else {
            rest
        }
    }
}

/// The warnings the first `n` files leave, in order.
pub open spec fn outcome_warnings(files: Seq<FileInput>, outs: Seq<FileOutcome>, n: int) -> Seq<
    (Seq<char>, Option<Seq<char>>, Option<Language>),
>
    decreases n,
{
    if n <= 0 {
        Seq::empty()
    } else {
        let rest = outcome_warnings(files, outs, n - 1);
        let path = files[n - 1].path@;
        match outs[n - 1] {
            FileOutcome::NoBackend { language } => rest.push(
                ("no backend registered for detected language"@, Some(path), Some(language)),
            ),
            FileOutcome::Failed { language, error } => rest.push(
                ("failed to analyze file: "@ + error@, Some(path), Some(language)),
            ),
            FileOutcome::Analyzed { analysis } => rest + warning_views(analysis.warnings@),
            _ => rest,
        }
    }
}

/// At most `limit` of the paths, none without a limit.
pub open spec fn sample_paths(paths: Seq<Seq<char>>, limit: Option<usize>) -> Seq<Seq<char>> {
    match limit {
        None => Seq::empty(),
        Some(l) => if paths.len() > l {
            paths.take(l as int)
        } else {
            paths
        },
    }
}

/// The tail of a warning list: the unsupported-extension summary (when files were
/// skipped) and then one warning per sampled path.
pub open spec fn tail_warnings(
    w: Seq<AnalysisWarning>,
    start: int,
    buckets: Seq<Seq<char>>,
    samples: Seq<Seq<char>>,
) -> bool {
    let u: int = if buckets.len() > 0 {
        1
    } else {
        0
    };
    &&& w.len() == start + u + samples.len()
    &&& u == 1 ==> unsupported_warning_is(w[start], buckets)
    &&& forall|k: int|
        0 <= k < samples.len() ==> warning_view(#[trigger] w[start + u + k]) == (
            "unsupported extension skipped"@,
            Some(samples[k]),
            None::<Language>,
        )
}

/// `report` is the scan of `files` whose outcomes are `outs`.
pub open spec fn scan_result(
    r: LanguageBackendRegistry,
    files: Seq<FileInput>,
    discovery: Seq<AnalysisWarning>,
    o: ScanOptions,
    outs: Seq<FileOutcome>,
    report: ScanReport,
) -> bool {
    let base = warning_views(discovery) + outcome_warnings(files, outs, files.len() as int);
    &&& outs.len() == files.len()
    &&& forall|i: int| 0 <= i < files.len() ==> outcome_of(r, files[i], o, #[trigger] outs[i])
    &&& report.files@ == analyzed_of(outs)
    &&& summary_totals(report.summary) == totals_of(report.files@)
    &&& by_language_of(report.by_language@, report.files@)
    &&& warning_views(report.warnings@).take(base.len() as int) == base
    &&& tail_warnings(
        report.warnings@,
        base.len() as int,
        buckets_of(outs),
        sample_paths(unsupported_paths(files, outs, files.len() as int), o.unsupported_sample_limit),
    )
}

/// The total size of the files.
pub open spec fn bytes_total(files: Seq<FileInput>) -> int
    decreases files.len(),
{
    if files.len() == 0 {
        0
    } else {
        bytes_total(files.drop_last()) + files.last().bytes
    }
}

pub open spec fn sample_views(paths: Seq<Seq<char>>) -> Seq<(Seq<char>, Option<Seq<char>>, Option<Language>)> {
    paths.map_values(|p: Seq<char>| ("unsupported extension skipped"@, Some(p), None::<Language>))
}

/// Keeps a sample warning for an unsupported path while under the limit.
fn record_sample(
    samples: &mut Vec<AnalysisWarning>,
    limit: Option<usize>,
    path: &str,
    paths: Ghost<Seq<Seq<char>>>,
)
    requires
        warning_views(old(samples)@) == sample_views(sample_paths(paths@, limit)),
    ensures
        warning_views(final(samples)@) == sample_views(sample_paths(paths@.push(path@), limit)),
{
    let ghost before = samples@;
    if let Some(l) = limit {
        proof {
            assert(warning_views(before).len() == before.len());
            assert(sample_views(sample_paths(paths@, limit)).len() == sample_paths(paths@, limit).len());
        }
        if samples.len() < l {
            samples.push(AnalysisWarning::for_path(path, "unsupported extension skipped"));
            proof {
                assert(paths@.len() < l);
                assert(warning_views(samples@) =~= warning_views(before).push(warning_view(samples@.last())));
                assert(sample_paths(paths@.push(path@), limit) =~= paths@.push(path@));
                assert(sample_views(paths@.push(path@)) =~= sample_views(paths@).push(("unsupported extension skipped"@, Some(path@), None::<Language>)));
            }
        } else {
            proof {
                assert(sample_paths(paths@.push(path@), limit) =~= sample_paths(paths@, limit));
            }
        }
    }
}

proof fn lemma_unsupported_paths_stable(files: Seq<FileInput>, outs: Seq<FileOutcome>, x: FileOutcome, n: int)
    requires
        0 <= n <= outs.len(),
    ensures
        unsupported_paths(files, outs.push(x), n) == unsupported_paths(files, outs, n),
    decreases n,
{
    if n > 0 {
        lemma_unsupported_paths_stable(files, outs, x, n - 1);
        assert(outs.push(x)[n - 1] == outs[n - 1]);
    }
}

proof fn lemma_outcome_warnings_stable(files: Seq<FileInput>, outs: Seq<FileOutcome>, x: FileOutcome, n: int)
    requires
        0 <= n <= outs.len(),
    ensures
        outcome_warnings(files, outs.push(x), n) == outcome_warnings(files, outs, n),
    decreases n,
{
    if n > 0 {
        lemma_outcome_warnings_stable(files, outs, x, n - 1);
        assert(outs.push(x)[n - 1] == outs[n - 1]);
    }
}

/// The totals of `n` files whose lines number at most `lines` and whose sizes add
/// up to at most `bytes`, each line counted once under one kind.
pub open spec fn totals_bounded(t: Totals, n: int, bytes: int, lines: int) -> bool {
    &&& t.files == n
    &&& 0 <= t.code
    &&& 0 <= t.mixed
    &&& 0 <= t.comment
    &&& 0 <= t.doc
    &&& 0 <= t.blank
    &&& t.blank + t.code + t.comment + t.doc + t.mixed == t.lines
    &&& t.lines <= lines
    &&& t.sloc == t.code + t.mixed
    &&& 0 <= t.bytes <= bytes
    &&& t.parse_errors == 0
}

/// Adds an analysed file to the totals, the per-language totals and the list.
fn record_analysis(
    entries: &mut Vec<FileMetrics>,
    summary: &mut MetricsSummary,
    by_language: &mut Vec<LanguageSummary>,
    metrics: FileMetrics,
    bytes_before: Ghost<int>,
    bytes_after: Ghost<int>,
    lines_before: Ghost<int>,
    lines_after: Ghost<int>,
)
    requires
        old(entries)@.len() < usize::MAX,
        bytes_after@ <= u64::MAX,
        bytes_after@ == bytes_before@ + metrics.bytes,
        lines_after@ <= u64::MAX,
        lines_after@ == lines_before@ + metrics.total_lines,
        metrics.blank_lines + metrics.code_lines + metrics.comment_lines + metrics.doc_lines + metrics.mixed_lines
            == metrics.total_lines,
        metrics.parse_errors == 0,
        summary_totals(*old(summary)) == totals_of(old(entries)@),
        totals_bounded(totals_of(old(entries)@), old(entries)@.len() as int, bytes_before@, lines_before@),
        by_language_of(old(by_language)@, old(entries)@),
    ensures
        final(entries)@ == old(entries)@.push(metrics),
        summary_totals(*final(summary)) == totals_of(final(entries)@),
        totals_bounded(totals_of(final(entries)@), final(entries)@.len() as int, bytes_after@, lines_after@),
        by_language_of(final(by_language)@, final(entries)@),
{
    let ghost all = entries@.push(metrics);
    proof {
        assert(all.drop_last() =~= entries@);
        assert(totals_of(all) == add_totals(totals_of(entries@), file_totals(metrics)));
        assert(totals_bounded(totals_of(all), all.len() as int, bytes_after@, lines_after@));
        assert(totals_fit(totals_of(all)));
    }
    summary.add_file(&metrics);
    add_to_language(by_language, &metrics, Ghost(entries@));
    entries.push(metrics);
}

impl Analyzer {
    /// Scans candidate files: classifies each supported, allowed and included file,
    /// adds up the totals overall and by language, and collects the warnings: those
    /// found while walking the tree, those of each file, a summary of the files
    /// skipped for an unsupported extension, and (when asked for) a sample of their
    /// paths.
    pub fn scan(
        &self,
        files: &Vec<FileInput>,
        discovery_warnings: Vec<AnalysisWarning>,
        options: &ScanOptions,
    ) -> (report: ScanReport)
        requires
            self.wf(),
            options_patterns_fit(*options),
            inputs_fit(files@),
            bytes_total(files@) <= u64::MAX,
            lines_total(files@) <= u64::MAX,
        ensures
            exists|outs: Seq<FileOutcome>|
                #[trigger] scan_result(
                    self.registry_view(),
                    files@,
                    discovery_warnings@,
                    *options,
                    outs,
                    report,
                ),
    {
        let ghost r = self.registry_view();
        let ghost discovery = discovery_warnings@;
        let mut entries: Vec<FileMetrics> = Vec::new();
        let mut warnings = discovery_warnings;
        let mut counts: Vec<(String, usize)> = Vec::new();
        let mut unsupported_total: usize = 0;
        let mut samples: Vec<AnalysisWarning> = Vec::new();
        let mut summary = MetricsSummary::default();
        let mut by_language: Vec<LanguageSummary> = Vec::new();
        let ghost mut outs: Seq<FileOutcome> = Seq::empty();
        proof {
            assert(warning_views(warnings@) =~= warning_views(discovery) + outcome_warnings(files@, outs, 0));
            assert(sample_views(sample_paths(unsupported_paths(files@, outs, 0), options.unsupported_sample_limit)) =~= warning_views(samples@));
            assert(totals_of(entries@) == crate::metrics::zero_totals());
        }
        let mut i: usize = 0;
        while i < files.len()
            invariant
                i <= files.len(),
                self.wf(),
                options_patterns_fit(*options),
                r == self.registry_view(),
                inputs_fit(files@),
                bytes_total(files@) <= u64::MAX,
                lines_total(files@) <= u64::MAX,
                outs.len() == i,
                forall|k: int| 0 <= k < i ==> outcome_of(r, files@[k], *options, #[trigger] outs[k]),
                entries@ == analyzed_of(outs),
                entries@.len() <= i,
                summary_totals(summary) == totals_of(entries@),
                totals_bounded(
                    totals_of(entries@),
                    entries@.len() as int,
                    bytes_total(files@.take(i as int)),
                    lines_total(files@.take(i as int)),
                ),
                by_language_of(by_language@, entries@),
                warning_views(warnings@) == warning_views(discovery) + outcome_warnings(files@, outs, i as int),
                counts_of(counts@, buckets_of(outs)),
                unsupported_total == buckets_of(outs).len(),
                buckets_of(outs).len() <= i,
                warning_views(samples@) == sample_views(
                    sample_paths(unsupported_paths(files@, outs, i as int), options.unsupported_sample_limit),
                ),
            decreases files.len() - i,
        {
            proof {
                assert(text_fits(files@[i as int]));
                assert(files@.take(i + 1).drop_last() =~= files@.take(i as int));
                lemma_bytes_prefix(files@, i + 1);
                lemma_lines_prefix(files@, i + 1);
            }
            let out = self.scan_file(&files[i], options);
            let ghost g = out;
            let ghost prev_outs = outs;
            proof {
                outs = outs.push(g);
                lemma_unsupported_paths_stable(files@, prev_outs, g, i as int);
                lemma_outcome_warnings_stable(files@, prev_outs, g, i as int);
                assert(outs.drop_last() =~= prev_outs);
                assert(outs[i as int] == g);
            }
            let path = files[i].path.as_str();
            match out {
                FileOutcome::Unsupported { bucket } => {
                    proof {
                        assert(buckets_of(outs) == buckets_of(prev_outs).push(bucket@));
                    }
                    count_bucket(&mut counts, bucket, Ghost(buckets_of(prev_outs)));
                    unsupported_total += 1;
                    record_sample(
                        &mut samples,
                        options.unsupported_sample_limit,
                        path,
                        Ghost(unsupported_paths(files@, prev_outs, i as int)),
                    );
                },
                FileOutcome::Skipped => {},
                FileOutcome::NoBackend { language } => {
                    let ghost before = warnings@;
                    warnings.push(
                        AnalysisWarning::for_file(path, language, "no backend registered for detected language"),
                    );
                    proof {
                        assert(warning_views(warnings@) =~= warning_views(before).push(warning_view(warnings@.last())));
                    }
                },
                FileOutcome::Failed { language, error } => {
                    let message = concat2("failed to analyze file: ", error.as_str());
                    let ghost before = warnings@;
                    warnings.push(AnalysisWarning::for_file(path, language, message.as_str()));
                    proof {
                        assert(warning_views(warnings@) =~= warning_views(before).push(warning_view(warnings@.last())));
                    }
                },
                FileOutcome::Analyzed { analysis } => {
                    let BackendFileAnalysis { metrics, line_explanations: _, warnings: mut extra } = analysis;
                    proof {
                        let language = detected(r, files@[i as int].path@);
                        crate::backends::lemma_classified_metrics(
                            r.backend_table()[language],
                            analysis,
                            files@[i as int].path@,
                            files@[i as int].text->Ok_0@,
                            files@[i as int].bytes,
                            scan_category(files@[i as int], *options),
                            options.classification,
                        );
                        crate::backends::lemma_classified_lines(
                            r.backend_table()[language],
                            analysis,
                            files@[i as int].path@,
                            files@[i as int].text->Ok_0@,
                            files@[i as int].bytes,
                            scan_category(files@[i as int], *options),
                            options.classification,
                        );
                    }
                    record_analysis(
                        &mut entries,
                        &mut summary,
                        &mut by_language,
                        metrics,
                        Ghost(bytes_total(files@.take(i as int))),
                        Ghost(bytes_total(files@.take(i + 1))),
                        Ghost(lines_total(files@.take(i as int))),
                        Ghost(lines_total(files@.take(i + 1))),
                    );
                    let ghost before = warnings@;
                    let ghost moved = extra@;
                    warnings.append(&mut extra);
                    proof {
                        assert(warning_views(warnings@) =~= warning_views(before) + warning_views(moved));
                    }
                },
            }
            proof {
                if !(g is Analyzed) {
                    assert(bytes_total(files@.take(i + 1)) >= bytes_total(files@.take(i as int)));
                    assert(lines_total(files@.take(i + 1)) >= lines_total(files@.take(i as int)));
                }
                assert(warning_views(discovery) + outcome_warnings(files@, outs, i + 1) =~= warning_views(warnings@)) by {
                    assert(outs[i as int] == g);
                }
            }
            i += 1;
        }
        let ghost base = warning_views(warnings@);
        let ghost buckets = buckets_of(outs);
        let ghost sampled = sample_paths(unsupported_paths(files@, outs, files@.len() as int), options.unsupported_sample_limit);
        let start = warnings.len();
        if let Some(w) = unsupported_extension_warning(&counts, unsupported_total, Ghost(buckets)) {
            warnings.push(w);
        }
        let ghost mid = warnings@;
        let ghost moved = samples@;
        warnings.append(&mut samples);
        let report = ScanReport { summary, files: entries, by_language, warnings };
        proof {
            assert(files@.take(files@.len() as int) =~= files@);
            let u: int = if buckets.len() > 0 { 1 } else { 0 };
            assert(warning_views(report.warnings@).take(base.len() as int) =~= base) by {
                assert forall|k: int| 0 <= k < base.len() implies warning_views(report.warnings@)[k] == base[k] by {
                    assert(report.warnings@[k] == mid[k]);
                }
            }
            assert(warning_views(moved).len() == sampled.len());
            assert forall|k: int| 0 <= k < sampled.len() implies warning_view(#[trigger] report.warnings@[start + u + k]) == (
                "unsupported extension skipped"@,
                Some(sampled[k]),
                None::<Language>,
            ) by {
                assert(report.warnings@[start + u + k] == moved[k]);
                assert(warning_views(moved)[k] == sample_views(sampled)[k]);
            }
            assert(scan_result(r, files@, discovery, *options, outs, report));
        }
        report
    }
}

/// The lines of a file's text, none where it could not be read.
pub open spec fn text_lines(f: FileInput) -> int {
    match f.text {
        Ok(t) => split_lines(t@).len() as int,
        Err(_) => 0,
    }
}

/// The lines of all the files' texts. Every line but an empty last one holds a
/// character of its text, and the texts are all in memory at once, so this is less
/// than the address space.
pub open spec fn lines_total(files: Seq<FileInput>) -> int
    decreases files.len(),
{
    if files.len() == 0 {
        0
    } else {
        lines_total(files.drop_last()) + text_lines(files.last())
    }
}

proof fn lemma_lines_prefix(files: Seq<FileInput>, n: int)
    requires
        0 < n <= files.len(),
    ensures
        lines_total(files.take(n)) == lines_total(files.take(n - 1)) + text_lines(files[n - 1]),
        lines_total(files.take(n)) <= lines_total(files),
        text_lines(files[n - 1]) >= 0,
    decreases files.len() - n,
{
    assert(files.take(n).drop_last() =~= files.take(n - 1));
    if n < files.len() {
        lemma_lines_prefix(files, n + 1);
    } else {
        assert(files.take(n) =~= files);
    }
}

proof fn lemma_bytes_prefix(files: Seq<FileInput>, n: int)
    requires
        0 < n <= files.len(),
    ensures
        bytes_total(files.take(n)) == bytes_total(files.take(n - 1)) + files[n - 1].bytes,
        bytes_total(files.take(n)) <= bytes_total(files),
    decreases files.len() - n,
{
    assert(files.take(n).drop_last() =~= files.take(n - 1));
    if n < files.len() {
        lemma_bytes_prefix(files, n + 1);
    } else {
        assert(files.take(n) =~= files);
    }
}

// ---------------------------------------------------------------------------
// Detecting
// ---------------------------------------------------------------------------

/// What a detection run reports.
#[derive(Debug, Clone)]
pub struct DetectReport {
    pub path: String,
    pub languages: Vec<Language>,
    pub presets: Vec<String>,
    pub categories: Vec<FileCategory>,
    pub active_ignore_rules: Vec<String>,
    pub warnings: Vec<AnalysisWarning>,
}

/// A file a scan keeps: a known, allowed language and an included category.
pub open spec fn kept(r: LanguageBackendRegistry, f: FileInput, o: ScanOptions) -> bool {
    let language = detected(r, f.path@);
    &&& language != Language::Unknown
    &&& spec_allows_language(languages_view(o.languages), language)
    &&& !spec_exclude_category(o, scan_category(f, o))
}

/// Buckets of the files among the first `n` whose language is unknown.
pub open spec fn unknown_buckets(r: LanguageBackendRegistry, files: Seq<FileInput>, n: int) -> Seq<Seq<char>>
    decreases n,
{
    if n <= 0 {
        Seq::empty()
    } else {
        let rest = unknown_buckets(r, files, n - 1);
        if detected(r, files[n - 1].path@) == Language::Unknown {
            rest.push(bucket_of(files[n - 1].path@))
        } else {
            rest
        }
    }
}

/// Paths of the files among the first `n` whose language is unknown.
pub open spec fn unknown_paths(r: LanguageBackendRegistry, files: Seq<FileInput>, n: int) -> Seq<Seq<char>>
    decreases n,
{
    if n <= 0 {
        Seq::empty()
    } else {
        let rest = unknown_paths(r, files, n - 1);
        if detected(r, files[n - 1].path@) == Language::Unknown {
            rest.push(files[n - 1].path@)
        } else {
            rest
        }
    }
}

pub open spec fn languages_ordered(v: Seq<Language>) -> bool {
    forall|i: int, j: int| 0 <= i < j < v.len() ==> seq_lt(language_name(#[trigger] v[i]), language_name(#[trigger] v[j]))
}

pub open spec fn categories_ordered(v: Seq<FileCategory>) -> bool {
    forall|i: int, j: int| 0 <= i < j < v.len() ==> seq_lt(category_name(#[trigger] v[i]), category_name(#[trigger] v[j]))
}

/// `report` is the detection run over `files` under root `root`.
pub open spec fn detect_result(
    r: LanguageBackendRegistry,
    root: Seq<char>,
    files: Seq<FileInput>,
    discovery: Seq<AnalysisWarning>,
    o: ScanOptions,
    report: DetectReport,
) -> bool {
    let n = files.len() as int;
    &&& report.path@ == root
    &&& report.presets@.len() == 0
    &&& languages_ordered(report.languages@)
    &&& forall|l: Language| report.languages@.contains(l) <==> exists|i: int| 0 <= i < n && kept(r, files[i], o) && detected(r, #[trigger] files[i].path@) == l
    &&& categories_ordered(report.categories@)
    &&& forall|c: FileCategory| report.categories@.contains(c) <==> exists|i: int| 0 <= i < n && kept(r, files[i], o) && scan_category(#[trigger] files[i], o) == c
    &&& report.active_ignore_rules@.map_values(|s: String| s@) == if o.respect_gitignore {
        builtin_rules().push(".gitignore"@)
    } else {
        builtin_rules()
    }
    &&& warning_views(report.warnings@).take(discovery.len() as int) == warning_views(discovery)
    &&& tail_warnings(
        report.warnings@,
        discovery.len() as int,
        unknown_buckets(r, files, n),
        sample_paths(unknown_paths(r, files, n), o.unsupported_sample_limit),
    )
}

fn name_lt(a: Language, b: Language) -> (r: bool)
    ensures
        r == seq_lt(language_name(a), language_name(b)),
{
    str_lt(a.as_str(), b.as_str())
}

/// Adds a language to a name-ordered list of distinct languages.
fn add_language(v: &mut Vec<Language>, l: Language)
    requires
        languages_ordered(old(v)@),
    ensures
        languages_ordered(final(v)@),
        forall|x: Language| final(v)@.contains(x) <==> old(v)@.contains(x) || x == l,
{
    let ghost before = v@;
    let mut p: usize = 0;
    while p < v.len() && name_lt(v[p], l)
        invariant
            p <= v.len(),
            v@ == before,
            forall|k: int| 0 <= k < p ==> seq_lt(language_name(#[trigger] v@[k]), language_name(l)),
        decreases v.len() - p,
    {
        p += 1;
    }
    if p < v.len() && v[p] == l {
        return;
    }
    proof {
        if p < before.len() {
            lemma_language_name_injective(before[p as int], l);
            lemma_seq_lt_total(language_name(before[p as int]), language_name(l));
        }
    }
    v.insert(p, l);
    proof {
        let n = v@;
        assert forall|a: int, b: int| 0 <= a < b < n.len() implies seq_lt(language_name(#[trigger] n[a]), language_name(#[trigger] n[b])) by {
            if b < p {
                assert(n[a] == before[a] && n[b] == before[b]);
            } else if b == p {
                assert(n[a] == before[a]);
            } else if a == p {
                assert(n[b] == before[b - 1]);
                if b - 1 > p {
                    lemma_seq_lt_transitive(language_name(l), language_name(before[p as int]), language_name(before[b - 1]));
                }
            } else if a < p {
                assert(n[a] == before[a] && n[b] == before[b - 1]);
            } else {
                assert(n[a] == before[a - 1] && n[b] == before[b - 1]);
            }
        }
        assert forall|x: Language| n.contains(x) <==> before.contains(x) || x == l by {
            if n.contains(x) {
                let k = choose|k: int| 0 <= k < n.len() && n[k] == x;
                if k < p {
                    assert(before[k] == x);
                } else if k > p {
                    assert(before[k - 1] == x);
                }
            }
            if before.contains(x) {
                let k = choose|k: int| 0 <= k < before.len() && before[k] == x;
                let k2 = if k < p { k } else { k + 1 };
                assert(n[k2] == x);
            }
            if x == l {
                assert(n[p as int] == x);
            }
        }
    }
}

fn category_lt(a: FileCategory, b: FileCategory) -> (r: bool)
    ensures
        r == seq_lt(category_name(a), category_name(b)),
{
    str_lt(a.as_str(), b.as_str())
}

/// Adds a category to a name-ordered list of distinct categories.
fn add_category(v: &mut Vec<FileCategory>, c: FileCategory)
    requires
        categories_ordered(old(v)@),
    ensures
        categories_ordered(final(v)@),
        forall|x: FileCategory| final(v)@.contains(x) <==> old(v)@.contains(x) || x == c,
{
    let ghost before = v@;
    let mut p: usize = 0;
    while p < v.len() && category_lt(v[p], c)
        invariant
            p <= v.len(),
            v@ == before,
            forall|k: int| 0 <= k < p ==> seq_lt(category_name(#[trigger] v@[k]), category_name(c)),
        decreases v.len() - p,
    {
        p += 1;
    }
    if p < v.len() && v[p] == c {
        return;
    }
    proof {
        if p < before.len() {
            lemma_category_name_injective(before[p as int], c);
            lemma_seq_lt_total(category_name(before[p as int]), category_name(c));
        }
    }
    v.insert(p, c);
    proof {
        let n = v@;
        assert forall|a: int, b: int| 0 <= a < b < n.len() implies seq_lt(category_name(#[trigger] n[a]), category_name(#[trigger] n[b])) by {
            if b < p {
                assert(n[a] == before[a] && n[b] == before[b]);
            } else if b == p {
                assert(n[a] == before[a]);
            } else if a == p {
                assert(n[b] == before[b - 1]);
                if b - 1 > p {
                    lemma_seq_lt_transitive(category_name(c), category_name(before[p as int]), category_name(before[b - 1]));
                }
            } else if a < p {
                assert(n[a] == before[a] && n[b] == before[b - 1]);
            } else {
                assert(n[a] == before[a - 1] && n[b] == before[b - 1]);
            }
        }
        assert forall|x: FileCategory| n.contains(x) <==> before.contains(x) || x == c by {
            if n.contains(x) {
                let k = choose|k: int| 0 <= k < n.len() && n[k] == x;
                if k < p {
                    assert(before[k] == x);
                } else if k > p {
                    assert(before[k - 1] == x);
                }
            }
            if before.contains(x) {
                let k = choose|k: int| 0 <= k < before.len() && before[k] == x;
                let k2 = if k < p { k } else { k + 1 };
                assert(n[k2] == x);
            }
            if x == c {
                assert(n[p as int] == x);
            }
        }
    }
}

proof fn lemma_unknown_step(r: LanguageBackendRegistry, files: Seq<FileInput>, n: int)
    requires
        0 < n,
    ensures
        unknown_buckets(r, files, n) == if detected(r, files[n - 1].path@) == Language::Unknown {
            unknown_buckets(r, files, n - 1).push(bucket_of(files[n - 1].path@))
        } else {
            unknown_buckets(r, files, n - 1)
        },
        unknown_paths(r, files, n) == if detected(r, files[n - 1].path@) == Language::Unknown {
            unknown_paths(r, files, n - 1).push(files[n - 1].path@)
        } else {
            unknown_paths(r, files, n - 1)
        },
{
}

impl Analyzer {
    /// The languages and categories of the kept candidate files, the ignore rules
    /// in effect and the warnings (as a scan reports unsupported files).
    pub fn detect(
        &self,
        root: &str,
        files: &Vec<FileInput>,
        discovery_warnings: Vec<AnalysisWarning>,
        options: &ScanOptions,
    ) -> (report: DetectReport)
        requires
            self.wf(),
            options_patterns_fit(*options),
            files@.len() < usize::MAX,
        ensures
            detect_result(self.registry_view(), root@, files@, discovery_warnings@, *options, report),
    {
        let ghost r = self.registry_view();
        let ghost discovery = discovery_warnings@;
        let mut languages: Vec<Language> = Vec::new();
        let mut categories: Vec<FileCategory> = Vec::new();
        let mut warnings = discovery_warnings;
        let mut counts: Vec<(String, usize)> = Vec::new();
        let mut unsupported_total: usize = 0;
        let mut samples: Vec<AnalysisWarning> = Vec::new();
        proof {
            assert(sample_views(sample_paths(unknown_paths(r, files@, 0), options.unsupported_sample_limit)) =~= warning_views(samples@));
        }
        let mut i: usize = 0;
        while i < files.len()
            invariant
                i <= files.len() < usize::MAX,
                self.wf(),
                options_patterns_fit(*options),
                r == self.registry_view(),
                warnings@ == discovery,
                languages_ordered(languages@),
                forall|l: Language| languages@.contains(l) <==> exists|k: int| 0 <= k < i && kept(r, files@[k], *options) && detected(r, #[trigger] files@[k].path@) == l,
                categories_ordered(categories@),
                forall|c: FileCategory| categories@.contains(c) <==> exists|k: int| 0 <= k < i && kept(r, files@[k], *options) && scan_category(#[trigger] files@[k], *options) == c,
                counts_of(counts@, unknown_buckets(r, files@, i as int)),
                unsupported_total == unknown_buckets(r, files@, i as int).len(),
                unknown_buckets(r, files@, i as int).len() <= i,
                warning_views(samples@) == sample_views(
                    sample_paths(unknown_paths(r, files@, i as int), options.unsupported_sample_limit),
                ),
            decreases files.len() - i,
        {
            proof {
                lemma_unknown_step(r, files@, i + 1);
            }
            let file = &files[i];
            let path = file.path.as_str();
            let language = self.registry.detect_language(path);
            let ghost f = files@[i as int];
            if language == Language::Unknown {
                let bucket = match extension(path) {
                    Some(e) => concat2(".", e.as_str()),
                    None => "no extension".to_owned(),
                };
                count_bucket(&mut counts, bucket, Ghost(unknown_buckets(r, files@, i as int)));
                unsupported_total += 1;
                record_sample(
                    &mut samples,
                    options.unsupported_sample_limit,
                    path,
                    Ghost(unknown_paths(r, files@, i as int)),
                );
            } else if options.allows_language(language) {
                let text: Option<&str> = match &file.text {
                    Ok(t) => Some(t.as_str()),
                    Err(_) => None,
                };
                let category = analyze_category_with_options(path, text, options).category;
                proof {
                    assert(text_view(f.text) == match text {
                        Some(t) => Some(t@),
                        None => None,
                    });
                }
                if !options.exclude_category(category) {
                    add_language(&mut languages, language);
                    add_category(&mut categories, category);
                }
            }
            proof {
                let k_now = kept(r, f, *options);
                assert forall|l: Language| languages@.contains(l) <==> exists|k: int| 0 <= k < i + 1 && kept(r, files@[k], *options) && detected(r, #[trigger] files@[k].path@) == l by {
                    if exists|k: int| 0 <= k < i + 1 && kept(r, files@[k], *options) && detected(r, #[trigger] files@[k].path@) == l {
                        let k = choose|k: int| 0 <= k < i + 1 && kept(r, files@[k], *options) && detected(r, #[trigger] files@[k].path@) == l;
                        if k < i {
                        }
                    }
                }
                assert forall|c: FileCategory| categories@.contains(c) <==> exists|k: int| 0 <= k < i + 1 && kept(r, files@[k], *options) && scan_category(#[trigger] files@[k], *options) == c by {
                    if exists|k: int| 0 <= k < i + 1 && kept(r, files@[k], *options) && scan_category(#[trigger] files@[k], *options) == c {
                        let k = choose|k: int| 0 <= k < i + 1 && kept(r, files@[k], *options) && scan_category(#[trigger] files@[k], *options) == c;
                        if k < i {
                        }
                    }
                }
            }
            i += 1;
        }
        let ghost buckets = unknown_buckets(r, files@, files@.len() as int);
        let ghost sampled = sample_paths(unknown_paths(r, files@, files@.len() as int), options.unsupported_sample_limit);
        let start = warnings.len();
        if let Some(w) = unsupported_extension_warning(&counts, unsupported_total, Ghost(buckets)) {
            warnings.push(w);
        }
        let ghost moved = samples@;
        warnings.append(&mut samples);
        let report = DetectReport {
            path: root.to_owned(),
            languages,
            presets: Vec::new(),
            categories,
            active_ignore_rules: active_ignore_rules(options),
            warnings,
        };
        proof {
            let u: int = if buckets.len() > 0 { 1 } else { 0 };
            assert(warning_views(report.warnings@).take(discovery.len() as int) =~= warning_views(discovery)) by {
                assert forall|k: int| 0 <= k < discovery.len() implies warning_views(report.warnings@)[k] == warning_views(discovery)[k] by {
                    assert(report.warnings@[k] == discovery[k]);
                }
            }
            assert(warning_views(moved).len() == sampled.len());
            assert forall|k: int| 0 <= k < sampled.len() implies warning_view(#[trigger] report.warnings@[start + u + k]) == (
                "unsupported extension skipped"@,
                Some(sampled[k]),
                None::<Language>,
            ) by {
                assert(report.warnings@[start + u + k] == moved[k]);
                assert(warning_views(moved)[k] == sample_views(sampled)[k]);
            }
        }
        report
    }
}

// ---------------------------------------------------------------------------
// Explaining one file
// ---------------------------------------------------------------------------

/// Everything said about one file: its language, category, metrics, the reasons
/// for both, each line's explanation and any warnings.
#[derive(Debug, Clone)]
pub struct ExplainReport {
    pub path: String,
    pub language: Language,
    pub category: FileCategory,
    pub metrics: FileMetrics,
    pub reasons: Vec<String>,
    pub line_explanations: Vec<LineExplanation>,
    pub warnings: Vec<AnalysisWarning>,
}

/// Why a language was chosen, from the path's extension.
pub open spec fn language_reason(language: Language, ext: Option<Seq<char>>) -> Seq<char> {
    match ext {
        Some(e) => "language detected as "@ + language_name(language) + " from ."@ + e + " extension"@,
        None => "language detected as "@ + language_name(language) + " without a file extension"@,
    }
}

/// The category rule that decides a file's category under the options.
pub open spec fn scan_rule(f: FileInput, o: ScanOptions) -> (FileCategory, Seq<char>) {
    category_rule(
        path_components(f.path@),
        name_of_path(f.path@),
        text_view(f.text),
        any_glob(o.vendor_patterns@.map_values(|p: String| p@), f.path@),
        any_glob(o.generated_patterns@.map_values(|p: String| p@), f.path@),
    )
}

/// `r` is what explaining file `f` (a regular file when `is_file`) gives.
pub open spec fn explain_result(
    reg: LanguageBackendRegistry,
    f: FileInput,
    is_file: bool,
    o: ScanOptions,
    r: Result<ExplainReport, String>,
) -> bool {
    let language = detected(reg, f.path@);
    if !is_file {
        r matches Err(e) && e@ == f.path@ + " is not a readable file"@
    } else if language == Language::Unknown {
        r matches Err(e) && e@ == f.path@ + " is not a supported source file"@
    } else if !reg.backend_table().contains_key(language) {
        r matches Err(e) && e@ == "no backend registered for "@ + language_name(language)
    } else {
        match f.text {
            Err(e) => r matches Err(e2) && e2@ == e@,
            Ok(t) => r matches Ok(rep) && {
                &&& rep.path@ == f.path@
                &&& rep.language == language
                &&& rep.category == scan_rule(f, o).0
                &&& rep.reasons@.map_values(|s: String| s@) == seq![
                    language_reason(language, path_extension(f.path@)),
                    scan_rule(f, o).1,
                ]
                &&& exists|a: BackendFileAnalysis|
                    #[trigger] classified_by(
                        reg.backend_table()[language],
                        a,
                        f.path@,
                        t@,
                        f.bytes,
                        scan_rule(f, o).0,
                        o.classification,
                    ) && rep.metrics == a.metrics && rep.line_explanations == a.line_explanations
                        && rep.warnings == a.warnings
            },
        }
    }
}

impl Analyzer {
    /// Explains one file under the scan options.
    pub fn explain_with_options(&self, file: &FileInput, is_file: bool, options: &ScanOptions) -> (r:
        Result<ExplainReport, String>)
        requires
            self.wf(),
            options_patterns_fit(*options),
            text_fits(*file),
        ensures
            explain_result(self.registry_view(), *file, is_file, *options, r),
    {
        let path = file.path.as_str();
        if !is_file {
            return Err(concat2(path, " is not a readable file"));
        }
        let language = self.registry.detect_language(path);
        if language == Language::Unknown {
            return Err(concat2(path, " is not a supported source file"));
        }
        let text: Option<&str> = match &file.text {
            Ok(t) => Some(t.as_str()),
            Err(_) => None,
        };
        let category = analyze_category_with_options(path, text, options);
        let backend = match self.registry.backend(language) {
            Some(b) => b,
            None => {
                return Err(concat2("no backend registered for ", language.as_str()));
            },
        };
        let contents = match &file.text {
            Ok(t) => t,
            Err(e) => {
                return Err(e.clone());
            },
        };
        let analysis = backend.classify_file(
            path,
            contents.as_str(),
            file.bytes,
            category.category,
            &options.classification,
        );
        let ghost a = analysis;
        let language_line = match extension(path) {
            Some(e) => {
                let head = crate::text::concat3("language detected as ", language.as_str(), " from .");
                crate::text::concat3(head.as_str(), e.as_str(), " extension")
            },
            None => crate::text::concat3(
                "language detected as ",
                language.as_str(),
                " without a file extension",
            ),
        };
        let mut reasons: Vec<String> = Vec::new();
        reasons.push(language_line);
        let CategoryAssessment { category: cat, reasons: mut category_reasons } = category;
        let ghost cr = category_reasons@;
        reasons.append(&mut category_reasons);
        let BackendFileAnalysis { metrics, line_explanations, warnings } = analysis;
        let report = ExplainReport {
            path: path.to_owned(),
            language,
            category: cat,
            metrics,
            reasons,
            line_explanations,
            warnings,
        };
        proof {
            assert(report.reasons@.map_values(|s: String| s@) =~= seq![
                language_reason(language, path_extension(file.path@)),
                scan_rule(*file, *options).1,
            ]);
            assert(classified_by(
                self.registry_view().backend_table()[language],
                a,
                file.path@,
                contents@,
                file.bytes,
                scan_rule(*file, *options).0,
                options.classification,
            ));
        }
        Ok(report)
    }

    /// Explains one file under the default options.
    pub fn explain(&self, file: &FileInput, is_file: bool) -> (r: Result<ExplainReport, String>)
        requires
            self.wf(),
            text_fits(*file),
        ensures
            exists|o: ScanOptions| is_default_options(o) && #[trigger] explain_result(self.registry_view(), *file, is_file, o, r),
    {
        let options = ScanOptions::default();
        let r = self.explain_with_options(file, is_file, &options);
        assert(is_default_options(options) && explain_result(self.registry_view(), *file, is_file, options, r));
        r
    }
}

/// A reported file has a known language that the options allow, and a category
/// they include.
pub open spec fn passes_filters(o: ScanOptions, m: FileMetrics) -> bool {
    &&& m.language != Language::Unknown
    &&& spec_allows_language(languages_view(o.languages), m.language)
    &&& !spec_exclude_category(o, m.category)
}

proof fn lemma_analyzed_pass_filters(reg: LanguageBackendRegistry, files: Seq<FileInput>, o: ScanOptions, outs: Seq<FileOutcome>)
    requires
        reg.wf(),
        outs.len() == files.len(),
        forall|i: int| 0 <= i < files.len() ==> outcome_of(reg, files[i], o, #[trigger] outs[i]),
    ensures
        forall|k: int| 0 <= k < analyzed_of(outs).len() ==> passes_filters(o, #[trigger] analyzed_of(outs)[k]),
    decreases outs.len(),
{
    if outs.len() > 0 {
        let n = outs.len() - 1;
        assert forall|i: int| 0 <= i < files.drop_last().len() implies outcome_of(reg, files.drop_last()[i], o, #[trigger] outs.drop_last()[i]) by {
            assert(files.drop_last()[i] == files[i]);
            assert(outs.drop_last()[i] == outs[i]);
        }
        lemma_analyzed_pass_filters(reg, files.drop_last(), o, outs.drop_last());
        let last = outs[n];
        assert(outcome_of(reg, files[n], o, last));
        if last is Analyzed {
            let f = files[n];
            let language = detected(reg, f.path@);
            crate::registry::lemma_backend_table_language(reg, language);
            let b = reg.backend_table()[language];
            crate::backends::lemma_classified_metrics(b, last->analysis, f.path@, f.text->Ok_0@, f.bytes, scan_category(f, o), o.classification);
            assert(passes_filters(o, last->analysis.metrics));
        }
        let rest = analyzed_of(outs.drop_last());
        assert(outs.last() == last);
        assert forall|k: int| 0 <= k < analyzed_of(outs).len() implies passes_filters(o, #[trigger] analyzed_of(outs)[k]) by {
            if k < rest.len() {
                assert(analyzed_of(outs)[k] == rest[k]);
            }
        }
    }
}

/// Every file a scan reports has a known language that the options allow and a
/// category they include: unsupported, filtered and excluded files are left out.
pub proof fn lemma_scan_reports_only_kept_files(
    reg: LanguageBackendRegistry,
    files: Seq<FileInput>,
    discovery: Seq<AnalysisWarning>,
    o: ScanOptions,
    outs: Seq<FileOutcome>,
    report: ScanReport,
)
    requires
        reg.wf(),
        scan_result(reg, files, discovery, o, outs, report),
    ensures
        forall|k: int| 0 <= k < report.files@.len() ==> passes_filters(o, #[trigger] report.files@[k]),
{
    lemma_analyzed_pass_filters(reg, files, o, outs);
}

/// Explaining a file that a scan classified, under the same registry and options,
/// gives the same language, category and metrics.
pub proof fn lemma_explain_agrees_with_scan(
    reg: LanguageBackendRegistry,
    f: FileInput,
    o: ScanOptions,
    out: FileOutcome,
    r: Result<ExplainReport, String>,
)
    requires
        reg.wf(),
        outcome_of(reg, f, o, out),
        out is Analyzed,
        explain_result(reg, f, true, o, r),
    ensures
        r matches Ok(rep) && rep.language == out->analysis.metrics.language && rep.category
            == out->analysis.metrics.category && rep.path@ == out->analysis.metrics.path@,
        r matches Ok(rep) && same_metrics(rep.metrics, out->analysis.metrics),
{
    let language = detected(reg, f.path@);
    let b = reg.backend_table()[language];
    crate::registry::lemma_backend_table_language(reg, language);
    let t = f.text->Ok_0;
    let a = out->analysis;
    crate::backends::lemma_classified_metrics(b, a, f.path@, t@, f.bytes, scan_category(f, o), o.classification);
    let rep = r->Ok_0;
    let a2 = choose|a2: BackendFileAnalysis|
        #[trigger] classified_by(b, a2, f.path@, t@, f.bytes, scan_rule(f, o).0, o.classification)
            && rep.metrics == a2.metrics && rep.line_explanations == a2.line_explanations && rep.warnings
            == a2.warnings;
    crate::backends::lemma_classification_deterministic(b, a2, a, f.path@, t@, f.bytes, scan_category(f, o), o.classification);
}

/// The totals of the given languages' files, summed language by language.
pub open spec fn per_language_totals(ls: Seq<Language>, files: Seq<FileMetrics>) -> Totals
    decreases ls.len(),
{
    if ls.len() == 0 {
        zero_totals()
    } else {
        add_totals(per_language_totals(ls.drop_last(), files), totals_of(of_language(files, ls.last())))
    }
}

/// The sum of the by-language summaries.
pub open spec fn language_summaries_total(groups: Seq<LanguageSummary>) -> Totals
    decreases groups.len(),
{
    if groups.len() == 0 {
        zero_totals()
    } else {
        add_totals(language_summaries_total(groups.drop_last()), summary_totals(groups.last().summary))
    }
}

proof fn lemma_per_language_empty(ls: Seq<Language>)
    ensures
        per_language_totals(ls, Seq::empty()) == zero_totals(),
    decreases ls.len(),
{
    if ls.len() > 0 {
        lemma_per_language_empty(ls.drop_last());
    }
}

proof fn lemma_per_language_push(ls: Seq<Language>, files: Seq<FileMetrics>, x: FileMetrics)
    requires
        ls.no_duplicates(),
    ensures
        per_language_totals(ls, files.push(x)) == if ls.contains(x.language) {
            add_totals(per_language_totals(ls, files), file_totals(x))
        } else {
            per_language_totals(ls, files)
        },
    decreases ls.len(),
{
    if ls.len() > 0 {
        let rest = ls.drop_last();
        assert(rest.no_duplicates());
        lemma_per_language_push(rest, files, x);
        let l = ls.last();
        assert(files.push(x).drop_last() =~= files);
        let before = of_language(files, l);
        if l == x.language {
            assert(of_language(files.push(x), l) == before.push(x));
            assert(before.push(x).drop_last() =~= before);
            assert(totals_of(before.push(x)) == add_totals(totals_of(before), file_totals(x)));
        } else {
            assert(of_language(files.push(x), l) == before);
        }
        if l == x.language {
            assert(!rest.contains(l)) by {
                if rest.contains(l) {
                    let k = choose|k: int| 0 <= k < rest.len() && rest[k] == l;
                    assert(ls[k] == ls[ls.len() - 1]);
                }
            }
            assert(ls.contains(x.language)) by {
                assert(ls[ls.len() - 1] == l);
            }
            assert(per_language_totals(ls, files.push(x)) =~= add_totals(per_language_totals(ls, files), file_totals(x)));
        } else {
            assert(ls.contains(x.language) == rest.contains(x.language)) by {
                if ls.contains(x.language) {
                    let k = choose|k: int| 0 <= k < ls.len() && ls[k] == x.language;
                    assert(k < ls.len() - 1);
                    assert(rest[k] == x.language);
                }
                if rest.contains(x.language) {
                    let k = choose|k: int| 0 <= k < rest.len() && rest[k] == x.language;
                    assert(ls[k] == x.language);
                }
            }
        }
    }
}

proof fn lemma_per_language_covers(ls: Seq<Language>, files: Seq<FileMetrics>)
    requires
        ls.no_duplicates(),
        forall|k: int| 0 <= k < files.len() ==> ls.contains(#[trigger] files[k].language),
    ensures
        per_language_totals(ls, files) == totals_of(files),
    decreases files.len(),
{
    if files.len() == 0 {
        lemma_per_language_empty(ls);
        assert(files =~= Seq::<FileMetrics>::empty());
    } else {
        let rest = files.drop_last();
        assert forall|k: int| 0 <= k < rest.len() implies ls.contains(#[trigger] rest[k].language) by {
            assert(rest[k] == files[k]);
        }
        lemma_per_language_covers(ls, rest);
        assert(rest.push(files.last()) =~= files);
        assert(ls.contains(files[files.len() - 1].language));
        lemma_per_language_push(ls, rest, files.last());
    }
}

proof fn lemma_summaries_are_per_language(groups: Seq<LanguageSummary>, files: Seq<FileMetrics>)
    requires
        forall|i: int|
            0 <= i < groups.len() ==> summary_totals((#[trigger] groups[i]).summary) == totals_of(
                of_language(files, groups[i].language),
            ),
    ensures
        language_summaries_total(groups) == per_language_totals(
            groups.map_values(|g: LanguageSummary| g.language),
            files,
        ),
    decreases groups.len(),
{
    let ls = groups.map_values(|g: LanguageSummary| g.language);
    if groups.len() > 0 {
        let rest = groups.drop_last();
        assert forall|i: int| 0 <= i < rest.len() implies summary_totals((#[trigger] rest[i]).summary) == totals_of(
            of_language(files, rest[i].language),
        ) by {
            assert(rest[i] == groups[i]);
        }
        lemma_summaries_are_per_language(rest, files);
        assert(ls.drop_last() =~= rest.map_values(|g: LanguageSummary| g.language));
        assert(groups[groups.len() - 1] == groups.last());
    }
}

/// The by-language summaries of a scan add up to its overall summary: each file
/// is counted under exactly one language.
pub proof fn lemma_language_summaries_sum_to_summary(report: ScanReport)
    requires
        by_language_of(report.by_language@, report.files@),
        summary_totals(report.summary) == totals_of(report.files@),
    ensures
        language_summaries_total(report.by_language@) == summary_totals(report.summary),
{
    let groups = report.by_language@;
    let files = report.files@;
    let ls = groups.map_values(|g: LanguageSummary| g.language);
    assert(ls.no_duplicates()) by {
        assert forall|i: int, j: int| 0 <= i < ls.len() && 0 <= j < ls.len() && i != j implies ls[i] != ls[j] by {
            if i < j {
                assert(language_rank(groups[i].language) < language_rank(groups[j].language));
            } else {
                assert(language_rank(groups[j].language) < language_rank(groups[i].language));
            }
        }
    }
    assert forall|k: int| 0 <= k < files.len() implies ls.contains(#[trigger] files[k].language) by {
        let i = choose|i: int| 0 <= i < groups.len() && (#[trigger] groups[i]).language == files[k].language;
        assert(ls[i] == files[k].language);
    }
    lemma_per_language_covers(ls, files);
    lemma_summaries_are_per_language(groups, files);
}

} // verus!
