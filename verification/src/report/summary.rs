//! Totals grouped by language, category, directory or file.
use vstd::prelude::*;

use crate::analyze::totals_le;
use crate::metrics::{
    add_totals, file_totals, lemma_totals_monotone, spec_sloc, summary_totals, totals_fit, totals_of,
    zero_totals, FileMetrics, MetricsSummary, ScanReport, Totals,
};
use crate::paths::{parent, path_parent};
use crate::report::{group_by_name, group_totals, GroupSummary, ScanGroupBy};
use crate::sorting::{holds_first, lemma_insert_holds_first, lemma_insert_strictly, strict_order, strictly_in_order};
use crate::text::{
    lemma_seq_lt_asymmetric, lemma_seq_lt_irreflexive, lemma_seq_lt_total, lemma_seq_lt_transitive,
    seq_lt, str_eq, str_lt,
};
use crate::types::{category_name, language_name};

verus! {

/// The group a file falls in: its language or category name, its directory (`.`
/// at the top), or its path.
pub open spec fn group_key(f: FileMetrics, by: ScanGroupBy) -> Seq<char> {
    match by {
        ScanGroupBy::Language => language_name(f.language),
        ScanGroupBy::Category => category_name(f.category),
        ScanGroupBy::Dir => match path_parent(f.path@) {
            Some(p) => if p.len() == 0 {
                "."@
            } else {
                p
            },
            None => "."@,
        },
        ScanGroupBy::File => f.path@,
    }
}

/// The files of one group, in order.
pub open spec fn of_key(files: Seq<FileMetrics>, by: ScanGroupBy, key: Seq<char>) -> Seq<FileMetrics>
    decreases files.len(),
{
    if files.len() == 0 {
        Seq::empty()
    } else if group_key(files.last(), by) == key {
        of_key(files.drop_last(), by, key).push(files.last())
    } else {
        of_key(files.drop_last(), by, key)
    }
}

/// Larger groups first: by source lines, then lines, then key.
pub open spec fn group_lt(a: GroupSummary, b: GroupSummary) -> bool {
    a.sloc > b.sloc || (a.sloc == b.sloc && (a.lines > b.lines || (a.lines == b.lines && seq_lt(
        a.key@,
        b.key@,
    ))))
}

pub open spec fn group_order() -> spec_fn(GroupSummary, GroupSummary) -> bool {
    |a: GroupSummary, b: GroupSummary| group_lt(a, b)
}

/// `gs` are the groups of `files`: one per key present, each with the totals of its
/// files, larger groups first.
pub open spec fn groups_of(gs: Seq<GroupSummary>, files: Seq<FileMetrics>, by: ScanGroupBy) -> bool {
    &&& strictly_in_order(gs, group_order())
    &&& forall|i: int|
        0 <= i < gs.len() ==> (#[trigger] gs[i]).group_by@ == group_by_name(by) && group_totals(gs[i])
            == totals_of(of_key(files, by, gs[i].key@)) && of_key(files, by, gs[i].key@).len() > 0
    &&& forall|k: int| 0 <= k < files.len() ==> exists|i: int| 0 <= i < gs.len() && (#[trigger] gs[i]).key@ == group_key(#[trigger] files[k], by)
}

pub proof fn lemma_group_order_strict()
    ensures
        strict_order(group_order()),
{
    assert forall|a: GroupSummary| !#[trigger] group_order()(a, a) by {
        lemma_seq_lt_irreflexive(a.key@);
    }
    assert forall|a: GroupSummary, b: GroupSummary, c: GroupSummary| #[trigger] group_order()(a, b) && #[trigger] group_order()(b, c) implies group_order()(a, c) by {
        lemma_seq_lt_transitive(a.key@, b.key@, c.key@);
    }
}

proof fn lemma_group_total(a: GroupSummary, b: GroupSummary)
    ensures
        a.key@ != b.key@ ==> group_lt(a, b) || group_lt(b, a),
{
    lemma_seq_lt_total(a.key@, b.key@);
}

proof fn lemma_of_key_push(files: Seq<FileMetrics>, f: FileMetrics, by: ScanGroupBy, key: Seq<char>)
    ensures
        of_key(files.push(f), by, key) == if group_key(f, by) == key {
            of_key(files, by, key).push(f)
        } else {
            of_key(files, by, key)
        },
{
    assert(files.push(f).drop_last() =~= files);
}

proof fn lemma_of_key_le(files: Seq<FileMetrics>, by: ScanGroupBy, key: Seq<char>)
    ensures
        totals_le(totals_of(of_key(files, by, key)), totals_of(files)),
    decreases files.len(),
{
    if files.len() > 0 {
        lemma_of_key_le(files.drop_last(), by, key);
        if group_key(files.last(), by) == key {
            assert(of_key(files, by, key).drop_last() =~= of_key(files.drop_last(), by, key));
        }
    }
}

proof fn lemma_of_key_member(files: Seq<FileMetrics>, by: ScanGroupBy, key: Seq<char>)
    requires
        of_key(files, by, key).len() > 0,
    ensures
        exists|k: int| 0 <= k < files.len() && group_key(files[k], by) == key,
    decreases files.len(),
{
    if files.len() > 0 {
        if group_key(files.last(), by) == key {
            assert(group_key(files[files.len() - 1], by) == key);
        } else {
            lemma_of_key_member(files.drop_last(), by, key);
            let k = choose|k: int| 0 <= k < files.drop_last().len() && group_key(files.drop_last()[k], by) == key;
            assert(files[k] == files.drop_last()[k]);
        }
    }
}

/// The overall totals of a scan.
pub fn summary(report: &ScanReport) -> (r: &MetricsSummary)
    ensures
        *r == report.summary,
{
    &report.summary
}

/// The key of a file's group.
pub fn file_group_key(file: &FileMetrics, by: ScanGroupBy) -> (k: String)
    ensures
        k@ == group_key(*file, by),
{
    match by {
        ScanGroupBy::Language => file.language.as_str().to_owned(),
        ScanGroupBy::Category => file.category.as_str().to_owned(),
        ScanGroupBy::Dir => match parent(file.path.as_str()) {
            Some(p) => {
                if crate::text::chars_of(p.as_str()).len() == 0 {
                    ".".to_owned()
                } else {
                    p
                }
            },
            None => ".".to_owned(),
        },
        ScanGroupBy::File => file.path.clone(),
    }
}

/// The accumulated groups of a prefix of the files.
pub open spec fn accumulated(acc: Seq<(String, MetricsSummary)>, files: Seq<FileMetrics>, by: ScanGroupBy) -> bool {
    &&& forall|a: int, b: int| 0 <= a < b < acc.len() ==> (#[trigger] acc[a]).0@ != (#[trigger] acc[b]).0@
    &&& forall|a: int|
        0 <= a < acc.len() ==> summary_totals((#[trigger] acc[a]).1) == totals_of(of_key(files, by, acc[a].0@))
            && of_key(files, by, acc[a].0@).len() > 0
    &&& forall|k: int| 0 <= k < files.len() ==> exists|a: int| 0 <= a < acc.len() && (#[trigger] acc[a]).0@ == group_key(#[trigger] files[k], by)
}

fn accumulate(acc: &mut Vec<(String, MetricsSummary)>, file: &FileMetrics, by: ScanGroupBy, files: Ghost<Seq<FileMetrics>>)
    requires
        accumulated(old(acc)@, files@, by),
        totals_fit(totals_of(files@.push(*file))),
    ensures
        accumulated(final(acc)@, files@.push(*file), by),
{
    let ghost before = acc@;
    let ghost all = files@.push(*file);
    let key = file_group_key(file, by);
    proof {
        assert forall|m: Seq<char>| #[trigger] of_key(all, by, m) == if group_key(*file, by) == m {
            of_key(files@, by, m).push(*file)
        } else {
            of_key(files@, by, m)
        } by {
            lemma_of_key_push(files@, *file, by, m);
        }
        lemma_of_key_le(all, by, key@);
        assert(of_key(all, by, key@).drop_last() =~= of_key(files@, by, key@));
        assert(totals_of(of_key(all, by, key@)) == add_totals(totals_of(of_key(files@, by, key@)), file_totals(*file)));
        lemma_totals_monotone(of_key(all, by, key@));
    }
    let mut i: usize = 0;
    while i < acc.len() && !str_eq(acc[i].0.as_str(), key.as_str())
        invariant
            i <= acc.len(),
            acc@ == before,
            forall|m: int| 0 <= m < i ==> (#[trigger] acc@[m]).0@ != key@,
        decreases acc.len() - i,
    {
        i += 1;
    }
    if i < acc.len() {
        let mut summary = acc[i].1;
        summary.add_file(file);
        let name = acc[i].0.clone();
        acc.set(i, (name, summary));
        proof {
            let n = acc@;
            assert forall|a: int, b: int| 0 <= a < b < n.len() implies (#[trigger] n[a]).0@ != (#[trigger] n[b]).0@ by {
                assert(before[a].0@ != before[b].0@);
            }
            assert forall|a: int| 0 <= a < n.len() implies summary_totals((#[trigger] n[a]).1) == totals_of(of_key(all, by, n[a].0@)) && of_key(all, by, n[a].0@).len() > 0 by {
                if a != i {
                    assert(n[a] == before[a]);
                    assert(before[a].0@ != before[i as int].0@);
                }
            }
            assert forall|k: int| 0 <= k < all.len() implies exists|a: int| 0 <= a < n.len() && (#[trigger] n[a]).0@ == group_key(#[trigger] all[k], by) by {
                if k < files@.len() {
                    assert(all[k] == files@[k]);
                    let a = choose|a: int| 0 <= a < before.len() && (#[trigger] before[a]).0@ == group_key(files@[k], by);
                    assert(n[a].0@ == before[a].0@);
                } else {
                    assert(n[i as int].0@ == key@);
                }
            }
        }
    } else {
        proof {
            assert(of_key(files@, by, key@).len() == 0) by {
                if of_key(files@, by, key@).len() > 0 {
                    lemma_of_key_member(files@, by, key@);
                    let k = choose|k: int| 0 <= k < files@.len() && group_key(files@[k], by) == key@;
                    let a = choose|a: int| 0 <= a < before.len() && (#[trigger] before[a]).0@ == group_key(files@[k], by);
                    assert(acc@[a].0@ != key@);
                }
            }
            assert(of_key(files@, by, key@) =~= Seq::<FileMetrics>::empty());
            assert(totals_of(Seq::<FileMetrics>::empty()) == crate::metrics::zero_totals());
        }
        let mut summary = MetricsSummary::default();
        summary.add_file(file);
        acc.push((key, summary));
        proof {
            let n = acc@;
            assert forall|a: int, b: int| 0 <= a < b < n.len() implies (#[trigger] n[a]).0@ != (#[trigger] n[b]).0@ by {
                if b < before.len() {
                    assert(before[a].0@ != before[b].0@);
                } else {
                    assert(n[a] == before[a]);
                }
            }
            assert forall|a: int| 0 <= a < n.len() implies summary_totals((#[trigger] n[a]).1) == totals_of(of_key(all, by, n[a].0@)) && of_key(all, by, n[a].0@).len() > 0 by {
                if a < before.len() {
                    assert(n[a] == before[a]);
                }
            }
            assert forall|k: int| 0 <= k < all.len() implies exists|a: int| 0 <= a < n.len() && (#[trigger] n[a]).0@ == group_key(#[trigger] all[k], by) by {
                if k < files@.len() {
                    assert(all[k] == files@[k]);
                    let a = choose|a: int| 0 <= a < before.len() && (#[trigger] before[a]).0@ == group_key(files@[k], by);
                    assert(n[a] == before[a]);
                } else {
                    assert(n[before.len() as int].0@ == key@);
                }
            }
        }
    }
}

fn copy_group(g: &GroupSummary) -> (r: GroupSummary)
    ensures
        r == *g,
{
    GroupSummary {
        group_by: g.group_by.clone(),
        key: g.key.clone(),
        files: g.files,
        lines: g.lines,
        code: g.code,
        mixed: g.mixed,
        comment: g.comment,
        doc: g.doc,
        blank: g.blank,
        sloc: g.sloc,
        bytes: g.bytes,
        parse_errors: g.parse_errors,
    }
}

fn group_before(a: &GroupSummary, b: &GroupSummary) -> (r: bool)
    ensures
        r == group_lt(*a, *b),
{
    a.sloc > b.sloc || (a.sloc == b.sloc && (a.lines > b.lines || (a.lines == b.lines && str_lt(
        a.key.as_str(),
        b.key.as_str(),
    ))))
}

pub open spec fn keys_distinct(gs: Seq<GroupSummary>) -> bool {
    forall|a: int, b: int| 0 <= a < b < gs.len() ==> (#[trigger] gs[a]).key@ != (#[trigger] gs[b]).key@
}

/// `v` is the first `k` groups of `src`, in order.
#[verifier::opaque]
pub open spec fn sorted_part(v: Seq<GroupSummary>, src: Seq<GroupSummary>, k: int) -> bool {
    strictly_in_order(v, group_order()) && holds_first(v, src, k)
}

proof fn lemma_place_group(v: Seq<GroupSummary>, p: int, src: Seq<GroupSummary>, k: int)
    requires
        0 <= k < src.len(),
        keys_distinct(src),
        sorted_part(v, src, k),
        0 <= p <= v.len(),
        forall|m: int| 0 <= m < p ==> !group_lt(src[k], #[trigger] v[m]),
        p < v.len() ==> group_lt(src[k], v[p]),
    ensures
        sorted_part(v.insert(p, src[k]), src, k + 1),
{
    reveal(sorted_part);
    lemma_group_order_strict();
    let x = src[k];
    assert forall|m: int| 0 <= m < p implies group_order()(#[trigger] v[m], x) by {
        let j = choose|j: int| 0 <= j < k && v[m] == src[j];
        assert(src[j].key@ != src[k].key@);
        lemma_group_total(v[m], x);
    }
    lemma_insert_strictly(v, p, x, group_order());
    lemma_insert_holds_first(v, p, src, k);
}

/// Groups in order: larger source-line totals first, then more lines, then key.
pub fn sort_groups(groups: &Vec<GroupSummary>) -> (sorted: Vec<GroupSummary>)
    requires
        keys_distinct(groups@),
    ensures
        strictly_in_order(sorted@, group_order()),
        holds_first(sorted@, groups@, groups@.len() as int),
{
    let mut sorted: Vec<GroupSummary> = Vec::new();
    proof {
        reveal(sorted_part);
    }
    let mut k: usize = 0;
    while k < groups.len()
        invariant
            k <= groups.len(),
            keys_distinct(groups@),
            sorted_part(sorted@, groups@, k as int),
        decreases groups.len() - k,
    {
        let x = copy_group(&groups[k]);
        let mut p: usize = 0;
        while p < sorted.len() && !group_before(&x, &sorted[p])
            invariant
                p <= sorted.len(),
                forall|m: int| 0 <= m < p ==> !group_lt(x, #[trigger] sorted@[m]),
            decreases sorted.len() - p,
        {
            p += 1;
        }
        proof {
            lemma_place_group(sorted@, p as int, groups@, k as int);
        }
        sorted.insert(p, x);
        k += 1;
    }
    proof {
        reveal(sorted_part);
    }
    sorted
}

/// The groups of the report's files by one grouping.
pub fn groups_for(report: &ScanReport, by: ScanGroupBy) -> (gs: Vec<GroupSummary>)
    requires
        totals_fit(totals_of(report.files@)),
    ensures
        groups_of(gs@, report.files@, by),
        forall|i: int, j: int|
            0 <= i < j < gs@.len() ==> group_lt(#[trigger] gs@[i], #[trigger] gs@[j]) && gs@[i].key@ != gs@[j].key@,
        forall|i: int|
            0 <= i < gs@.len() ==> (#[trigger] gs@[i]).group_by@ == group_by_name(by) && exists|k: int|
                0 <= k < report.files@.len() && group_key(#[trigger] report.files@[k], by) == gs@[i].key@,
        sum_group_files(gs@) == report.files@.len(),
        sum_group_sloc(gs@) == sum_file_sloc(report.files@),
{
    let files = &report.files;
    let mut acc: Vec<(String, MetricsSummary)> = Vec::new();
    let mut i: usize = 0;
    while i < files.len()
        invariant
            i <= files.len(),
            totals_fit(totals_of(files@)),
            accumulated(acc@, files@.take(i as int), by),
        decreases files.len() - i,
    {
        proof {
            assert(files@.take(i + 1) =~= files@.take(i as int).push(files@[i as int]));
            crate::metrics::lemma_totals_prefix_fit(files@, i + 1);
        }
        accumulate(&mut acc, &files[i], by, Ghost(files@.take(i as int)));
        i += 1;
    }
    assert(files@.take(files.len() as int) =~= files@);
    let mut unsorted: Vec<GroupSummary> = Vec::new();
    let mut j: usize = 0;
    while j < acc.len()
        invariant
            j <= acc.len(),
            accumulated(acc@, files@, by),
            unsorted@.len() == j,
            forall|a: int| 0 <= a < j ==> (#[trigger] unsorted@[a]).key@ == acc@[a].0@ && unsorted@[a].group_by@ == group_by_name(by) && group_totals(unsorted@[a]) == summary_totals(acc@[a].1),
        decreases acc.len() - j,
    {
        let g = GroupSummary::from_metrics(by, acc[j].0.clone(), &acc[j].1);
        unsorted.push(g);
        j += 1;
    }
    proof {
        assert forall|a: int, b: int| 0 <= a < b < unsorted@.len() implies (#[trigger] unsorted@[a]).key@ != (#[trigger] unsorted@[b]).key@ by {
            assert(acc@[a].0@ != acc@[b].0@);
        }
    }
    let ghost src = unsorted@;
    let gs = sort_groups(&unsorted);
    proof {
        assert forall|i: int| 0 <= i < gs@.len() implies (#[trigger] gs@[i]).group_by@ == group_by_name(by) && group_totals(gs@[i]) == totals_of(of_key(files@, by, gs@[i].key@)) && of_key(files@, by, gs@[i].key@).len() > 0 by {
            let j = choose|j: int| 0 <= j < src.len() && gs@[i] == src[j];
            assert(src[j].key@ == acc@[j].0@);
        }
        assert forall|k: int| 0 <= k < files@.len() implies exists|i: int| 0 <= i < gs@.len() && (#[trigger] gs@[i]).key@ == group_key(#[trigger] files@[k], by) by {
            let a = choose|a: int| 0 <= a < acc@.len() && (#[trigger] acc@[a]).0@ == group_key(files@[k], by);
            assert(src[a].key@ == acc@[a].0@);
            let i = choose|i: int| 0 <= i < gs@.len() && gs@[i] == src[a];
            assert(gs@[i].key@ == group_key(files@[k], by));
        }
    }
    proof {
        lemma_groups_sorted_distinct_and_summing(gs@, files@, by);
    }
    gs
}

/// The groups for each grouping in turn.
pub fn groups(report: &ScanReport, groupings: &Vec<ScanGroupBy>) -> (gs: Vec<GroupSummary>)
    requires
        totals_fit(totals_of(report.files@)),
    ensures
        exists|parts: Seq<Seq<GroupSummary>>|
            parts.len() == groupings@.len() && (forall|i: int|
                0 <= i < parts.len() ==> groups_of(#[trigger] parts[i], report.files@, groupings@[i]))
                && gs@ == parts.flatten(),
{
    let mut out: Vec<GroupSummary> = Vec::new();
    let ghost mut parts: Seq<Seq<GroupSummary>> = Seq::empty();
    let mut i: usize = 0;
    while i < groupings.len()
        invariant
            i <= groupings.len(),
            totals_fit(totals_of(report.files@)),
            parts.len() == i,
            forall|k: int| 0 <= k < parts.len() ==> groups_of(#[trigger] parts[k], report.files@, groupings@[k]),
            out@ == parts.flatten(),
        decreases groupings.len() - i,
    {
        let mut part = groups_for(report, groupings[i]);
        let ghost g = part@;
        out.append(&mut part);
        proof {
            let old_parts = parts;
            parts = parts.push(g);
            assert(parts.drop_last() =~= old_parts);
            assert(parts.flatten() =~= old_parts.flatten() + g) by {
                old_parts.lemma_flatten_push(g);
            }
        }
        i += 1;
    }
    out
}

/// The totals of the given keys' files, summed key by key.
pub open spec fn per_key_totals(keys: Seq<Seq<char>>, files: Seq<FileMetrics>, by: ScanGroupBy) -> Totals
    decreases keys.len(),
{
    if keys.len() == 0 {
        zero_totals()
    } else {
        add_totals(per_key_totals(keys.drop_last(), files, by), totals_of(of_key(files, by, keys.last())))
    }
}

/// The sum of the groups' totals.
pub open spec fn groups_total(gs: Seq<GroupSummary>) -> Totals
    decreases gs.len(),
{
    if gs.len() == 0 {
        zero_totals()
    } else {
        add_totals(groups_total(gs.drop_last()), group_totals(gs.last()))
    }
}

proof fn lemma_per_key_empty(keys: Seq<Seq<char>>, by: ScanGroupBy)
    ensures
        per_key_totals(keys, Seq::empty(), by) == zero_totals(),
    decreases keys.len(),
{
    if keys.len() > 0 {
        lemma_per_key_empty(keys.drop_last(), by);
    }
}

proof fn lemma_per_key_push(keys: Seq<Seq<char>>, files: Seq<FileMetrics>, x: FileMetrics, by: ScanGroupBy)
    requires
        keys.no_duplicates(),
    ensures
        per_key_totals(keys, files.push(x), by) == if keys.contains(group_key(x, by)) {
            add_totals(per_key_totals(keys, files, by), file_totals(x))
        } else {
            per_key_totals(keys, files, by)
        },
    decreases keys.len(),
{
    if keys.len() > 0 {
        let rest = keys.drop_last();
        assert(rest.no_duplicates());
        lemma_per_key_push(rest, files, x, by);
        let key = keys.last();
        let before = of_key(files, by, key);
        lemma_of_key_push(files, x, by, key);
        if key == group_key(x, by) {
            assert(before.push(x).drop_last() =~= before);
            assert(totals_of(before.push(x)) == add_totals(totals_of(before), file_totals(x)));
            assert(!rest.contains(key)) by {
                if rest.contains(key) {
                    let k = choose|k: int| 0 <= k < rest.len() && rest[k] == key;
                    assert(keys[k] == keys[keys.len() - 1]);
                }
            }
            assert(keys.contains(group_key(x, by))) by {
                assert(keys[keys.len() - 1] == key);
            }
            assert(per_key_totals(keys, files.push(x), by) =~= add_totals(per_key_totals(keys, files, by), file_totals(x)));
        } else {
            assert(keys.contains(group_key(x, by)) == rest.contains(group_key(x, by))) by {
                if keys.contains(group_key(x, by)) {
                    let k = choose|k: int| 0 <= k < keys.len() && keys[k] == group_key(x, by);
                    assert(k < keys.len() - 1);
                    assert(rest[k] == group_key(x, by));
                }
                if rest.contains(group_key(x, by)) {
                    let k = choose|k: int| 0 <= k < rest.len() && rest[k] == group_key(x, by);
                    assert(keys[k] == group_key(x, by));
                }
            }
        }
    }
}

proof fn lemma_per_key_covers(keys: Seq<Seq<char>>, files: Seq<FileMetrics>, by: ScanGroupBy)
    requires
        keys.no_duplicates(),
        forall|k: int| 0 <= k < files.len() ==> keys.contains(group_key(#[trigger] files[k], by)),
    ensures
        per_key_totals(keys, files, by) == totals_of(files),
    decreases files.len(),
{
    if files.len() == 0 {
        lemma_per_key_empty(keys, by);
        assert(files =~= Seq::<FileMetrics>::empty());
    } else {
        let rest = files.drop_last();
        assert forall|k: int| 0 <= k < rest.len() implies keys.contains(group_key(#[trigger] rest[k], by)) by {
            assert(rest[k] == files[k]);
        }
        lemma_per_key_covers(keys, rest, by);
        assert(rest.push(files.last()) =~= files);
        assert(keys.contains(group_key(files[files.len() - 1], by)));
        lemma_per_key_push(keys, rest, files.last(), by);
    }
}

proof fn lemma_groups_are_per_key(gs: Seq<GroupSummary>, files: Seq<FileMetrics>, by: ScanGroupBy)
    requires
        forall|i: int| 0 <= i < gs.len() ==> group_totals(#[trigger] gs[i]) == totals_of(of_key(files, by, gs[i].key@)),
    ensures
        groups_total(gs) == per_key_totals(gs.map_values(|g: GroupSummary| g.key@), files, by),
    decreases gs.len(),
{
    let keys = gs.map_values(|g: GroupSummary| g.key@);
    if gs.len() > 0 {
        let rest = gs.drop_last();
        assert forall|i: int| 0 <= i < rest.len() implies group_totals(#[trigger] rest[i]) == totals_of(
            of_key(files, by, rest[i].key@),
        ) by {
            assert(rest[i] == gs[i]);
        }
        lemma_groups_are_per_key(rest, files, by);
        assert(keys.drop_last() =~= rest.map_values(|g: GroupSummary| g.key@));
        assert(gs[gs.len() - 1] == gs.last());
    }
}

/// The groups of any grouping add up to the totals of all the files: each file
/// falls in exactly one group.
pub proof fn lemma_groups_sum_to_totals(gs: Seq<GroupSummary>, files: Seq<FileMetrics>, by: ScanGroupBy)
    requires
        groups_of(gs, files, by),
    ensures
        groups_total(gs) == totals_of(files),
{
    let keys = gs.map_values(|g: GroupSummary| g.key@);
    assert(keys.no_duplicates()) by {
        assert forall|i: int, j: int| 0 <= i < keys.len() && 0 <= j < keys.len() && i != j implies keys[i] != keys[j] by {
            if keys[i] == keys[j] {
                lemma_seq_lt_irreflexive(gs[i].key@);
                assert(group_totals(gs[i]) == group_totals(gs[j]));
                if i < j {
                    assert(group_lt(gs[i], gs[j]));
                } else {
                    assert(group_lt(gs[j], gs[i]));
                }
            }
        }
    }
    assert forall|k: int| 0 <= k < files.len() implies keys.contains(group_key(#[trigger] files[k], by)) by {
        let i = choose|i: int| 0 <= i < gs.len() && (#[trigger] gs[i]).key@ == group_key(files[k], by);
        assert(keys[i] == group_key(files[k], by));
    }
    lemma_per_key_covers(keys, files, by);
    lemma_groups_are_per_key(gs, files, by);
}

/// The groups of a report come largest first: by source lines, then by lines, then
/// by key; no key occurs twice; each names its grouping and the key of some file of
/// the report; and together they count every file, line and byte of the report
/// exactly once.
pub proof fn lemma_groups_sorted_distinct_and_summing(gs: Seq<GroupSummary>, files: Seq<FileMetrics>, by: ScanGroupBy)
    requires
        groups_of(gs, files, by),
    ensures
        forall|i: int, j: int|
            0 <= i < j < gs.len() ==> group_lt(#[trigger] gs[i], #[trigger] gs[j]) && gs[i].key@ != gs[j].key@,
        forall|i: int|
            0 <= i < gs.len() ==> (#[trigger] gs[i]).group_by@ == group_by_name(by) && exists|k: int|
                0 <= k < files.len() && group_key(#[trigger] files[k], by) == gs[i].key@,
        groups_total(gs) == totals_of(files),
        sum_group_files(gs) == files.len(),
        sum_group_sloc(gs) == sum_file_sloc(files),
{
    assert forall|i: int, j: int| 0 <= i < j < gs.len() implies group_lt(#[trigger] gs[i], #[trigger] gs[j])
        && gs[i].key@ != gs[j].key@ by {
        assert(group_order()(gs[i], gs[j]));
        if gs[i].key@ == gs[j].key@ {
            lemma_seq_lt_irreflexive(gs[i].key@);
            assert(group_totals(gs[i]) == group_totals(gs[j]));
        }
    }
    assert forall|i: int| 0 <= i < gs.len() implies (#[trigger] gs[i]).group_by@ == group_by_name(by) && exists|k: int|
        0 <= k < files.len() && group_key(#[trigger] files[k], by) == gs[i].key@ by {
        lemma_of_key_member(files, by, gs[i].key@);
    }
    lemma_groups_sum_to_totals(gs, files, by);
    lemma_group_sums(gs);
    lemma_file_sums(files);
}

/// The files counted by the groups, one group after another.
pub open spec fn sum_group_files(gs: Seq<GroupSummary>) -> int
    decreases gs.len(),
{
    if gs.len() == 0 {
        0
    } else {
        sum_group_files(gs.drop_last()) + gs.last().files
    }
}

/// The source lines counted by the groups, one group after another.
pub open spec fn sum_group_sloc(gs: Seq<GroupSummary>) -> int
    decreases gs.len(),
{
    if gs.len() == 0 {
        0
    } else {
        sum_group_sloc(gs.drop_last()) + gs.last().sloc
    }
}

/// The source lines of the files, one file after another.
pub open spec fn sum_file_sloc(files: Seq<FileMetrics>) -> int
    decreases files.len(),
{
    if files.len() == 0 {
        0
    } else {
        sum_file_sloc(files.drop_last()) + spec_sloc(files.last())
    }
}

proof fn lemma_group_sums(gs: Seq<GroupSummary>)
    ensures
        groups_total(gs).files == sum_group_files(gs),
        groups_total(gs).sloc == sum_group_sloc(gs),
    decreases gs.len(),
{
    if gs.len() > 0 {
        lemma_group_sums(gs.drop_last());
    }
}

proof fn lemma_file_sums(files: Seq<FileMetrics>)
    ensures
        totals_of(files).files == files.len(),
        totals_of(files).sloc == sum_file_sloc(files),
    decreases files.len(),
{
    if files.len() > 0 {
        lemma_file_sums(files.drop_last());
    }
}

} // verus!
