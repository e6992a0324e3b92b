//! The largest files, and the largest directories that do not nest in one another.
use vstd::prelude::*;

use crate::metrics::{spec_sloc, totals_fit, totals_of, FileMetrics, ScanReport};
use crate::report::summary::{
    group_key, group_lt, group_order, groups_for, groups_of,
    lemma_groups_sorted_distinct_and_summing,
};
use crate::report::{group_by_name, GroupSummary, ScanGroupBy, TopFileEntry};
use crate::sorting::{in_order, lemma_insert_in_order, lemma_insert_multiset, strict_order};
use crate::text::{
    chars_of, has_prefix, lemma_seq_lt_irreflexive, lemma_seq_lt_transitive, seq_lt, str_eq, str_lt,
};

verus! {

/// The entry of one file.
pub open spec fn spec_entry(f: FileMetrics) -> TopFileEntry {
    TopFileEntry {
        path: f.path,
        language: f.language,
        category: f.category,
        files: 1,
        lines: f.total_lines as u64,
        code: f.code_lines as u64,
        mixed: f.mixed_lines as u64,
        comment: f.comment_lines as u64,
        doc: f.doc_lines as u64,
        blank: f.blank_lines as u64,
        sloc: spec_sloc(f) as u64,
        bytes: f.bytes,
        parse_errors: f.parse_errors as u64,
    }
}

/// Larger files first: by source lines, then lines, then path.
pub open spec fn file_lt(a: TopFileEntry, b: TopFileEntry) -> bool {
    a.sloc > b.sloc || (a.sloc == b.sloc && (a.lines > b.lines || (a.lines == b.lines && seq_lt(
        a.path@,
        b.path@,
    ))))
}

pub open spec fn file_order() -> spec_fn(TopFileEntry, TopFileEntry) -> bool {
    |a: TopFileEntry, b: TopFileEntry| file_lt(a, b)
}

proof fn lemma_file_order_strict()
    ensures
        strict_order(file_order()),
{
    assert forall|a: TopFileEntry| !#[trigger] file_order()(a, a) by {
        lemma_seq_lt_irreflexive(a.path@);
    }
    assert forall|a: TopFileEntry, b: TopFileEntry, c: TopFileEntry| #[trigger] file_order()(a, b) && #[trigger] file_order()(b, c) implies file_order()(a, c) by {
        lemma_seq_lt_transitive(a.path@, b.path@, c.path@);
    }
}

fn entry_before(a: &TopFileEntry, b: &TopFileEntry) -> (r: bool)
    ensures
        r == file_lt(*a, *b),
{
    a.sloc > b.sloc || (a.sloc == b.sloc && (a.lines > b.lines || (a.lines == b.lines && str_lt(
        a.path.as_str(),
        b.path.as_str(),
    ))))
}

fn entry_for(file: &FileMetrics) -> (e: TopFileEntry)
    ensures
        e == spec_entry(*file),
{
    TopFileEntry {
        path: file.path.clone(),
        language: file.language,
        category: file.category,
        files: 1,
        lines: file.total_lines as u64,
        code: file.code_lines as u64,
        mixed: file.mixed_lines as u64,
        comment: file.comment_lines as u64,
        doc: file.doc_lines as u64,
        blank: file.blank_lines as u64,
        sloc: file.code_lines as u64 + file.mixed_lines as u64,
        bytes: file.bytes,
        parse_errors: file.parse_errors as u64,
    }
}

/// `out` is the first `limit` of the report's file entries, larger files first
/// (entries that tie keep their order).
pub open spec fn top_files_of(out: Seq<TopFileEntry>, files: Seq<FileMetrics>, limit: usize) -> bool {
    exists|sorted: Seq<TopFileEntry>|
        in_order(sorted, file_order()) && #[trigger] sorted.to_multiset() == files.map_values(
            |f: FileMetrics| spec_entry(f),
        ).to_multiset() && out == if sorted.len() > limit {
            sorted.take(limit as int)
        } else {
            sorted
        }
}

/// The `limit` largest files.
pub fn top_files(report: &ScanReport, limit: usize) -> (out: Vec<TopFileEntry>)
    ensures
        top_files_of(out@, report.files@, limit),
{
    let files = &report.files;
    let ghost src = files@.map_values(|f: FileMetrics| spec_entry(f));
    let mut sorted: Vec<TopFileEntry> = Vec::new();
    proof {
        lemma_file_order_strict();
        assert(src.take(0) =~= Seq::<TopFileEntry>::empty());
    }
    let mut k: usize = 0;
    while k < files.len()
        invariant
            k <= files.len(),
            src == files@.map_values(|f: FileMetrics| spec_entry(f)),
            strict_order(file_order()),
            in_order(sorted@, file_order()),
            sorted@.to_multiset() == src.take(k as int).to_multiset(),
        decreases files.len() - k,
    {
        let x = entry_for(&files[k]);
        assert(x == src[k as int]);
        let mut p: usize = 0;
        while p < sorted.len() && !entry_before(&x, &sorted[p])
            invariant
                p <= sorted.len(),
                forall|m: int| 0 <= m < p ==> !file_order()(x, #[trigger] sorted@[m]),
            decreases sorted.len() - p,
        {
            p += 1;
        }
        proof {
            lemma_insert_in_order(sorted@, p as int, x, file_order());
            lemma_insert_multiset(sorted@, p as int, src, k as int);
        }
        sorted.insert(p, x);
        k += 1;
    }
    assert(src.take(files.len() as int) =~= src);
    let ghost full = sorted@;
    sorted.truncate(limit);
    assert(sorted@ == if full.len() > limit {
        full.take(limit as int)
    } else {
        full
    });
    sorted
}

/// Backslashes read as `/`.
pub open spec fn forward_slashes(s: Seq<char>) -> Seq<char> {
    s.map_values(|c: char| if c == '\\' {
        '/'
    } else {
        c
    })
}

/// `ancestor` names a directory above `descendant` (either separator counts).
pub open spec fn spec_is_ancestor_dir(ancestor: Seq<char>, descendant: Seq<char>) -> bool {
    let a = forward_slashes(ancestor);
    let d = forward_slashes(descendant);
    &&& ancestor != "."@
    &&& descendant != "."@
    &&& has_prefix(d, a)
    &&& d.len() > a.len()
    &&& d[a.len() as int] == '/'
}

/// Two directories are the same or one lies in the other.
pub open spec fn spec_directories_overlap(left: Seq<char>, right: Seq<char>) -> bool {
    left == right || spec_is_ancestor_dir(left, right) || spec_is_ancestor_dir(right, left)
}

fn slashed(s: &str) -> (r: Vec<char>)
    ensures
        r@ == forward_slashes(s@),
{
    let cs = chars_of(s);
    let mut out: Vec<char> = Vec::new();
    let mut i: usize = 0;
    while i < cs.len()
        invariant
            i <= cs.len(),
            cs@ == s@,
            out@ == forward_slashes(s@).take(i as int),
        decreases cs.len() - i,
    {
        if cs[i] == '\\' {
            out.push('/');
        } else {
            out.push(cs[i]);
        }
        i += 1;
        assert(out@ =~= forward_slashes(s@).take(i as int));
    }
    assert(forward_slashes(s@).take(cs.len() as int) =~= forward_slashes(s@));
    out
}

pub fn is_ancestor_dir(ancestor: &str, descendant: &str) -> (r: bool)
    ensures
        r == spec_is_ancestor_dir(ancestor@, descendant@),
{
    if str_eq(ancestor, ".") || str_eq(descendant, ".") {
        return false;
    }
    let a = slashed(ancestor);
    let d = slashed(descendant);
    if d.len() <= a.len() {
        return false;
    }
    crate::text::matches_chars_at(d.as_slice(), 0, a.as_slice()) && d[a.len()] == '/'
}

pub fn directories_overlap(left: &str, right: &str) -> (r: bool)
    ensures
        r == spec_directories_overlap(left@, right@),
{
    str_eq(left, right) || is_ancestor_dir(left, right) || is_ancestor_dir(right, left)
}

/// Directories picked greedily from the first `n`: each that overlaps none picked
/// before is kept, until `limit` are kept.
pub open spec fn select_dirs(dirs: Seq<GroupSummary>, limit: usize, n: int) -> Seq<GroupSummary>
    decreases n,
{
    if n <= 0 {
        Seq::empty()
    } else {
        let picked = select_dirs(dirs, limit, n - 1);
        if picked.len() >= limit {
            picked
        } else if exists|i: int| 0 <= i < picked.len() && spec_directories_overlap(#[trigger] picked[i].key@, dirs[n - 1].key@) {
            picked
        } else {
            picked.push(dirs[n - 1])
        }
    }
}

/// The top files are `limit` of the files, or all of them when there are fewer,
/// larger first.
pub proof fn lemma_top_files_count(out: Seq<TopFileEntry>, files: Seq<FileMetrics>, limit: usize)
    requires
        top_files_of(out, files, limit),
    ensures
        out.len() == if files.len() > limit {
            limit as int
        } else {
            files.len() as int
        },
        in_order(out, file_order()),
{
    let sorted = choose|sorted: Seq<TopFileEntry>|
        in_order(sorted, file_order()) && #[trigger] sorted.to_multiset() == files.map_values(
            |f: FileMetrics| spec_entry(f),
        ).to_multiset() && out == if sorted.len() > limit {
            sorted.take(limit as int)
        } else {
            sorted
        };
    let src = files.map_values(|f: FileMetrics| spec_entry(f));
    assert(sorted.len() == src.len()) by {
        sorted.to_multiset_ensures();
        src.to_multiset_ensures();
    }
    if sorted.len() > limit {
        assert forall|i: int, j: int| 0 <= i < j < out.len() implies !file_order()(#[trigger] out[j], #[trigger] out[i]) by {
            assert(out[i] == sorted[i] && out[j] == sorted[j]);
        }
    }
}

/// Overlap does not depend on the order of the two directories.
pub proof fn lemma_overlap_symmetric(left: Seq<char>, right: Seq<char>)
    ensures
        spec_directories_overlap(left, right) == spec_directories_overlap(right, left),
{
}

/// The picked directories number at most `limit`, no two of them overlap, and each
/// is one of the candidates.
pub proof fn lemma_selected_dirs_disjoint(dirs: Seq<GroupSummary>, limit: usize, n: int)
    requires
        0 <= n <= dirs.len(),
    ensures
        select_dirs(dirs, limit, n).len() <= limit,
        forall|i: int, j: int|
            0 <= i < j < select_dirs(dirs, limit, n).len() ==> !spec_directories_overlap(
                (#[trigger] select_dirs(dirs, limit, n)[i]).key@,
                (#[trigger] select_dirs(dirs, limit, n)[j]).key@,
            ),
        forall|i: int|
            0 <= i < select_dirs(dirs, limit, n).len() ==> dirs.contains(#[trigger] select_dirs(dirs, limit, n)[i]),
    decreases n,
{
    if n > 0 {
        lemma_selected_dirs_disjoint(dirs, limit, n - 1);
        let picked = select_dirs(dirs, limit, n - 1);
        let out = select_dirs(dirs, limit, n);
        if !(picked.len() >= limit) && !(exists|i: int| 0 <= i < picked.len() && spec_directories_overlap(#[trigger] picked[i].key@, dirs[n - 1].key@)) {
            assert(out == picked.push(dirs[n - 1]));
            assert forall|i: int, j: int| 0 <= i < j < out.len() implies !spec_directories_overlap(
                (#[trigger] out[i]).key@,
                (#[trigger] out[j]).key@,
            ) by {
                if j == out.len() - 1 {
                    assert(out[i] == picked[i]);
                    assert(!spec_directories_overlap(picked[i].key@, dirs[n - 1].key@));
                } else {
                    assert(out[i] == picked[i] && out[j] == picked[j]);
                }
            }
            assert forall|i: int| 0 <= i < out.len() implies dirs.contains(#[trigger] out[i]) by {
                if i == out.len() - 1 {
                    assert(dirs[n - 1] == out[i]);
                } else {
                    assert(out[i] == picked[i]);
                }
            }
        }
    }
}

fn copy_group(g: &GroupSummary) -> (r: GroupSummary)
    ensures
        r == *g,
{
    GroupSummary {
        group_by: g.group_by.clone(),
        key: g.key.clone(),
        files: g.files,
        lines: g.lines,
        code: g.code,
        mixed: g.mixed,
        comment: g.comment,
        doc: g.doc,
        blank: g.blank,
        sloc: g.sloc,
        bytes: g.bytes,
        parse_errors: g.parse_errors,
    }
}

/// The largest directories, skipping any that contains or lies in one already
/// picked, at most `limit` of them.
pub fn top_dirs(report: &ScanReport, limit: usize) -> (out: Vec<GroupSummary>)
    requires
        totals_fit(totals_of(report.files@)),
    ensures
        exists|dirs: Seq<GroupSummary>|
            groups_of(dirs, report.files@, ScanGroupBy::Dir) && out@ == #[trigger] select_dirs(
                dirs,
                limit,
                dirs.len() as int,
            ),
        out@.len() <= limit,
        forall|i: int, j: int|
            0 <= i < out@.len() && 0 <= j < out@.len() && i != j ==> !spec_directories_overlap(
                (#[trigger] out@[i]).key@,
                (#[trigger] out@[j]).key@,
            ),
        forall|i: int|
            0 <= i < out@.len() ==> exists|k: int|
                0 <= k < report.files@.len() && group_key(#[trigger] report.files@[k], ScanGroupBy::Dir)
                    == (#[trigger] out@[i]).key@,
{
    let dirs = groups_for(report, ScanGroupBy::Dir);
    let mut selected: Vec<GroupSummary> = Vec::new();
    let mut i: usize = 0;
    while i < dirs.len()
        invariant
            i <= dirs.len(),
            groups_of(dirs@, report.files@, ScanGroupBy::Dir),
            selected@ == select_dirs(dirs@, limit, i as int),
        decreases dirs.len() - i,
    {
        if selected.len() >= limit {
            proof {
                lemma_select_full(dirs@, limit, i as int, dirs@.len() as int);
                assert(groups_of(dirs@, report.files@, ScanGroupBy::Dir) && selected@ == select_dirs(dirs@, limit, dirs@.len() as int));
                lemma_top_dirs_disjoint(dirs@, report.files@, limit);
            }
            return selected;
        }
        let mut overlaps = false;
        let mut j: usize = 0;
        while j < selected.len()
            invariant
                i < dirs.len(),
                j <= selected.len(),
                selected@ == select_dirs(dirs@, limit, i as int),
                !overlaps ==> forall|m: int| 0 <= m < j ==> !spec_directories_overlap(#[trigger] selected@[m].key@, dirs@[i as int].key@),
                overlaps ==> exists|m: int| 0 <= m < selected@.len() && spec_directories_overlap(#[trigger] selected@[m].key@, dirs@[i as int].key@),
            decreases selected.len() - j,
        {
            if directories_overlap(selected[j].key.as_str(), dirs[i].key.as_str()) {
                overlaps = true;
            }
            j += 1;
        }
        if !overlaps {
            selected.push(copy_group(&dirs[i]));
        }
        i += 1;
    }
    assert(groups_of(dirs@, report.files@, ScanGroupBy::Dir) && selected@ == select_dirs(dirs@, limit, dirs@.len() as int));
    proof {
        lemma_top_dirs_disjoint(dirs@, report.files@, limit);
    }
    selected
}

/// The directories picked from the directory groups of a report number at most
/// `limit`, no two of them overlap (neither is the other or lies inside it), and
/// each is the parent directory of some file of the report.
pub proof fn lemma_top_dirs_disjoint(dirs: Seq<GroupSummary>, files: Seq<FileMetrics>, limit: usize)
    requires
        groups_of(dirs, files, ScanGroupBy::Dir),
    ensures
        select_dirs(dirs, limit, dirs.len() as int).len() <= limit,
        forall|i: int, j: int|
            0 <= i < select_dirs(dirs, limit, dirs.len() as int).len() && 0 <= j < select_dirs(
                dirs,
                limit,
                dirs.len() as int,
            ).len() && i != j ==> !spec_directories_overlap(
                (#[trigger] select_dirs(dirs, limit, dirs.len() as int)[i]).key@,
                (#[trigger] select_dirs(dirs, limit, dirs.len() as int)[j]).key@,
            ),
        forall|i: int|
            0 <= i < select_dirs(dirs, limit, dirs.len() as int).len() ==> exists|k: int|
                0 <= k < files.len() && group_key(#[trigger] files[k], ScanGroupBy::Dir) == (#[trigger] select_dirs(
                    dirs,
                    limit,
                    dirs.len() as int,
                )[i]).key@,
{
    let out = select_dirs(dirs, limit, dirs.len() as int);
    lemma_selected_dirs_disjoint(dirs, limit, dirs.len() as int);
    lemma_groups_sorted_distinct_and_summing(dirs, files, ScanGroupBy::Dir);
    assert forall|i: int, j: int| 0 <= i < out.len() && 0 <= j < out.len() && i != j implies !spec_directories_overlap(
        (#[trigger] out[i]).key@,
        (#[trigger] out[j]).key@,
    ) by {
        lemma_overlap_symmetric(out[i].key@, out[j].key@);
        if i > j {
            assert(!spec_directories_overlap(out[j].key@, out[i].key@));
        }
    }
    assert forall|i: int| 0 <= i < out.len() implies exists|k: int|
        0 <= k < files.len() && group_key(#[trigger] files[k], ScanGroupBy::Dir) == (#[trigger] out[i]).key@ by {
        assert(dirs.contains(out[i]));
        let d = choose|d: int| 0 <= d < dirs.len() && dirs[d] == out[i];
        assert(dirs[d].group_by@ == group_by_name(ScanGroupBy::Dir));
    }
}

proof fn lemma_select_full(dirs: Seq<GroupSummary>, limit: usize, i: int, n: int)
    requires
        0 <= i <= n,
        select_dirs(dirs, limit, i).len() >= limit,
    ensures
        select_dirs(dirs, limit, n) == select_dirs(dirs, limit, i),
    decreases n - i,
{
    if n > i {
        lemma_select_full(dirs, limit, i, n - 1);
    }
}

} // verus!
