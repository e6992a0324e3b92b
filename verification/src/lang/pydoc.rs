//! Docstring detection from the layout of a Python file alone: a triple-quoted
//! string that forms a whole statement, first in the module or first in the body
//! of a `class`/`def` header.
use vstd::prelude::*;

use crate::lang::pyscan::{match_string_start, string_start, StringStart};
use crate::lines::seqs_of;
use std::collections::BTreeSet;
use crate::text::{
    ascii_ws, ends_with_str, has_prefix, is_ascii_ws, is_ws, starts_with_str, trim, trim_bounds,
    trim_start, triple_at, triple_at_exec, unicode_ws,
};

verus! {

broadcast use vstd::laws_cmp::group_laws_cmp;

/// Number of leading whitespace characters (`chars().take_while(is_whitespace).count()`).
pub open spec fn indentation(s: Seq<char>) -> nat
    decreases s.len(),
{
    if s.len() > 0 && is_ws(s[0]) {
        1 + indentation(s.drop_first())
    } else {
        0
    }
}

proof fn lemma_indentation_trim_start(s: Seq<char>)
    ensures
        indentation(s) <= s.len(),
        s.skip(indentation(s) as int) == trim_start(s),
    decreases s.len(),
{
    if s.len() > 0 && is_ws(s[0]) {
        lemma_indentation_trim_start(s.drop_first());
        assert(s.drop_first().skip(indentation(s.drop_first()) as int) =~= s.skip(
            indentation(s) as int,
        ));
    } else {
        assert(s.skip(0) =~= s);
    }
}

/// Leading whitespace count; the rest of the line is `trim_start` of it.
pub fn leading_ws(s: &[char]) -> (r: usize)
    ensures
        r == indentation(s@),
        r <= s.len(),
        s@.skip(r as int) == trim_start(s@),
{
    let mut k: usize = 0;
    assert(s@.skip(0) =~= s@);
    while k < s.len() && unicode_ws(s[k])
        invariant
            k <= s.len(),
            indentation(s@) == k + indentation(s@.skip(k as int)),
        decreases s.len() - k,
    {
        proof {
            assert(s@.skip(k as int).drop_first() =~= s@.skip(k + 1));
        }
        k += 1;
    }
    proof {
        lemma_indentation_trim_start(s@);
    }
    k
}

pub open spec fn all_ascii_ws(s: Seq<char>) -> bool {
    forall|k: int| 0 <= k < s.len() ==> is_ascii_ws(#[trigger] s[k])
}

/// The line being scanned: the trimmed first line, or a later line as it is.
pub open spec fn scan_line(lines: Seq<Seq<char>>, first: Seq<char>, start: int, li: int) -> Seq<char> {
    if li == start {
        first
    } else {
        lines[li]
    }
}

/// Where the triple-quoted string opened on line `start` closes, if the closing
/// quotes end their line (only whitespace after them).
pub open spec fn ds_scan(
    lines: Seq<Seq<char>>,
    first: Seq<char>,
    start: int,
    li: int,
    bi: int,
    quote: char,
    raw: bool,
    escaped: bool,
) -> Option<int>
    decreases lines.len() - li, scan_line(lines, first, start, li).len() - bi,
{
    if li < start || li >= lines.len() || bi < 0 {
        None
    } else {
        let cur = scan_line(lines, first, start, li);
        if bi < cur.len() {
            if triple_at(cur, bi, quote, quote, quote) {
                if all_ascii_ws(cur.skip(bi + 3)) {
                    Some(li)
                } else {
                    None
                }
            } else if !raw && cur[bi] == '\\' && !escaped {
                ds_scan(lines, first, start, li, bi + 1, quote, raw, true)
            } else {
                ds_scan(lines, first, start, li, bi + 1, quote, raw, false)
            }
        } else if li + 1 >= lines.len() {
            None
        } else {
            ds_scan(lines, first, start, li + 1, 0, quote, raw, false)
        }
    }
}

/// The last line of a docstring statement starting on line `i`, if one starts there.
pub open spec fn statement_end(lines: Seq<Seq<char>>, i: int) -> Option<int> {
    let first = trim_start(lines[i]);
    match string_start(first, 0) {
        Some(s) => if s.triple {
            ds_scan(lines, first, i, i, s.consumed as int, s.quote, s.raw, false)
        } else {
            None
        },
        None => None,
    }
}

proof fn lemma_ds_scan_bounds(
    lines: Seq<Seq<char>>,
    first: Seq<char>,
    start: int,
    li: int,
    bi: int,
    quote: char,
    raw: bool,
    escaped: bool,
)
    ensures
        ds_scan(lines, first, start, li, bi, quote, raw, escaped) matches Some(e) ==> li <= e
            < lines.len(),
    decreases lines.len() - li, scan_line(lines, first, start, li).len() - bi,
{
    if li < start || li >= lines.len() || bi < 0 {
    } else {
        let cur = scan_line(lines, first, start, li);
        if bi < cur.len() {
            if triple_at(cur, bi, quote, quote, quote) {
            } else if !raw && cur[bi] == '\\' && !escaped {
                lemma_ds_scan_bounds(lines, first, start, li, bi + 1, quote, raw, true);
            } else {
                lemma_ds_scan_bounds(lines, first, start, li, bi + 1, quote, raw, false);
            }
        } else if li + 1 >= lines.len() {
        } else {
            lemma_ds_scan_bounds(lines, first, start, li + 1, 0, quote, raw, false);
        }
    }
}

pub proof fn lemma_statement_end_bounds(lines: Seq<Seq<char>>, i: int)
    requires
        0 <= i < lines.len(),
    ensures
        statement_end(lines, i) matches Some(e) ==> i <= e < lines.len(),
{
    let first = trim_start(lines[i]);
    if let Some(s) = string_start(first, 0) {
        if s.triple {
            lemma_ds_scan_bounds(lines, first, i, i, s.consumed as int, s.quote, s.raw, false);
        }
    }
}

fn all_ascii_ws_from(s: &[char], from: usize) -> (r: bool)
    requires
        from <= s.len(),
    ensures
        r == all_ascii_ws(s@.skip(from as int)),
{
    let mut k = from;
    while k < s.len()
        invariant
            from <= k <= s.len(),
            forall|m: int| from <= m < k ==> is_ascii_ws(#[trigger] s@[m]),
        decreases s.len() - k,
    {
        if !ascii_ws(s[k]) {
            assert(!is_ascii_ws(s@.skip(from as int)[k - from]));
            return false;
        }
        k += 1;
    }
    assert forall|m: int| 0 <= m < s@.skip(from as int).len() implies is_ascii_ws(
        #[trigger] s@.skip(from as int)[m],
    ) by {
        assert(s@.skip(from as int)[m] == s@[from + m]);
    }
    true
}

fn copy_from(s: &[char], from: usize) -> (r: Vec<char>)
    requires
        from <= s.len(),
    ensures
        r@ == s@.skip(from as int),
{
    let mut out: Vec<char> = Vec::new();
    let mut k = from;
    while k < s.len()
        invariant
            from <= k <= s.len(),
            out@ == s@.subrange(from as int, k as int),
        decreases s.len() - k,
    {
        out.push(s[k]);
        k += 1;
        assert(out@ =~= s@.subrange(from as int, k as int));
    }
    assert(out@ =~= s@.skip(from as int));
    out
}

/// The last line of the docstring statement that starts at `start_index`, if any.
pub fn docstring_statement_end(lines: &Vec<Vec<char>>, start_index: usize) -> (r: Option<usize>)
    requires
        start_index < lines.len(),
    ensures
        r matches Some(e) ==> statement_end(seqs_of(lines@), start_index as int) == Some(e as int),
        r is None ==> statement_end(seqs_of(lines@), start_index as int) is None,
{
    let ghost ls = seqs_of(lines@);
    let k = leading_ws(lines[start_index].as_slice());
    let trimmed = copy_from(lines[start_index].as_slice(), k);
    assert(ls[start_index as int] == lines@[start_index as int]@);
    let start = match match_string_start(trimmed.as_slice(), 0) {
        Some(s) => s,
        None => {
            return None;
        },
    };
    if !start.triple {
        return None;
    }
    let quote = start.quote;
    let raw = start.raw;
    let ghost first = trimmed@;
    let ghost target = ds_scan(ls, first, start_index as int, start_index as int, start.consumed as int, quote, raw, false);
    assert(target == statement_end(ls, start_index as int));
    let mut line_index = start_index;
    let mut byte_index = start.consumed;
    let mut escaped = false;
    loop
        invariant
            start_index <= line_index < lines.len(),
            first == trimmed@,
            ls == seqs_of(lines@),
            ds_scan(ls, first, start_index as int, line_index as int, byte_index as int, quote, raw, escaped) == target,
            target == statement_end(ls, start_index as int),
            line_index == start_index ==> byte_index <= trimmed.len(),
            line_index != start_index ==> byte_index == 0,
        decreases lines.len() - line_index,
    {
        let current: &[char] = if line_index == start_index {
            trimmed.as_slice()
        } else {
            lines[line_index].as_slice()
        };
        assert(current@ == scan_line(ls, first, start_index as int, line_index as int));
        while byte_index < current.len()
            invariant
                start_index <= line_index < lines.len(),
                ls == seqs_of(lines@),
                first == trimmed@,
                byte_index <= current.len(),
                current@ == scan_line(ls, first, start_index as int, line_index as int),
                ds_scan(ls, first, start_index as int, line_index as int, byte_index as int, quote, raw, escaped) == target,
                target == statement_end(ls, start_index as int),
            decreases current.len() - byte_index,
        {
            if triple_at_exec(current, byte_index, quote, quote, quote) {
                proof {
                    assert(ds_scan(ls, first, start_index as int, line_index as int, byte_index as int, quote, raw, escaped)
                        == (if all_ascii_ws(current@.skip(byte_index + 3)) {
                        Some(line_index as int)
                    } else {
                        None
                    }));
                }
                if all_ascii_ws_from(current, byte_index + 3) {
                    return Some(line_index);
                } else {
                    return None;
                }
            }
            if !raw && current[byte_index] == '\\' && !escaped {
                escaped = true;
                byte_index += 1;
                continue;
            }
            escaped = false;
            byte_index += 1;
        }
        if line_index + 1 >= lines.len() {
            return None;
        }
        line_index += 1;
        byte_index = 0;
        escaped = false;
    }
}

/// `class `, `def ` or `async def ` header ending in `:`.
pub open spec fn is_header(t: Seq<char>) -> bool {
    (has_prefix(t, "class "@) || has_prefix(t, "def "@) || has_prefix(t, "async def "@)) && t.len()
        > 0 && t.last() == ':'
}

pub fn is_class_or_function_header(t: &[char]) -> (r: bool)
    ensures
        r == is_header(t@),
{
    (starts_with_str(t, "class ") || starts_with_str(t, "def ") || starts_with_str(t, "async def "))
        && t.len() > 0 && t[t.len() - 1] == ':'
}

/// Drop pending headers that the current indentation has closed.
pub open spec fn pop_closed(pending: Seq<int>, indent: int) -> Seq<int>
    decreases pending.len(),
{
    if pending.len() > 0 && indent <= pending.last() {
        pop_closed(pending.drop_last(), indent)
    } else {
        pending
    }
}

/// Line numbers `a + 1 ..= e + 1` added to `marked`.
pub open spec fn mark_range(marked: Set<int>, a: int, e: int) -> Set<int> {
    marked.union(Set::new(|n: int| a + 1 <= n <= e + 1))
}

pub struct DsState {
    pub index: int,
    pub pending: Seq<int>,
    pub module_pending: bool,
    pub marked: Set<int>,
}

pub open spec fn ds_step(lines: Seq<Seq<char>>, s: DsState) -> DsState {
    let line = lines[s.index];
    let t = trim(line);
    let indent = indentation(line) as int;
    if t.len() == 0 || t[0] == '#' {
        DsState { index: s.index + 1, ..s }
    } else {
        let pending = pop_closed(s.pending, indent);
        let module_try = s.module_pending && indent == 0;
        let module_end = if module_try {
            statement_end(lines, s.index)
        } else {
            None
        };
        if module_end is Some {
            let e = module_end->0;
            DsState {
                index: e + 1,
                pending,
                module_pending: false,
                marked: mark_range(s.marked, s.index, e),
            }
        } else {
            let mp = if module_try {
                false
            } else {
                s.module_pending
            };
            if pending.len() > 0 && indent > pending.last() {
                let body_end = statement_end(lines, s.index);
                if body_end is Some {
                    let e = body_end->0;
                    DsState {
                        index: e + 1,
                        pending: pending.drop_last(),
                        module_pending: mp,
                        marked: mark_range(s.marked, s.index, e),
                    }
                } else {
                    let p2 = pending.drop_last();
                    DsState {
                        index: s.index + 1,
                        pending: if is_header(t) {
                            p2.push(indent)
                        } else {
                            p2
                        },
                        module_pending: mp,
                        marked: s.marked,
                    }
                }
            } else {
                DsState {
                    index: s.index + 1,
                    pending: if is_header(t) {
                        pending.push(indent)
                    } else {
                        pending
                    },
                    module_pending: mp,
                    marked: s.marked,
                }
            }
        }
    }
}

pub open spec fn ds_run(lines: Seq<Seq<char>>, s: DsState) -> DsState
    decreases lines.len() - s.index,
{
    if 0 <= s.index < lines.len() {
        let n = ds_step(lines, s);
        if s.index < n.index <= lines.len() {
            ds_run(lines, n)
        } else {
            n
        }
    } else {
        s
    }
}

/// Line numbers (1-based) that the layout marks as docstring lines.
pub open spec fn structural_docstrings(lines: Seq<Seq<char>>) -> Set<int> {
    ds_run(
        lines,
        DsState { index: 0, pending: Seq::empty(), module_pending: true, marked: Set::empty() },
    ).marked
}

/// `marks[n]` tells whether line number `n` is in `set`, for every `n` it covers.
pub open spec fn marks_match(marks: Seq<bool>, set: Set<int>) -> bool {
    forall|n: int| 0 <= n < marks.len() ==> marks[n] == set.contains(n)
}

fn mark_line_range(marks: &mut Vec<bool>, start_index: usize, end_index: usize, ghost_set: Ghost<Set<int>>)
    requires
        start_index <= end_index,
        end_index + 1 < old(marks).len(),
        marks_match(old(marks)@, ghost_set@),
    ensures
        final(marks)@.len() == old(marks)@.len(),
        marks_match(final(marks)@, mark_range(ghost_set@, start_index as int, end_index as int)),
{
    let mut n = start_index + 1;
    while n <= end_index + 1
        invariant
            start_index + 1 <= n <= end_index + 2,
            end_index + 1 < marks.len(),
            marks@.len() == old(marks)@.len(),
            forall|m: int|
                0 <= m < marks@.len() ==> marks@[m] == (ghost_set@.contains(m) || (start_index + 1
                    <= m < n)),
        decreases end_index + 2 - n,
    {
        marks.set(n, true);
        n += 1;
    }
    assert forall|m: int| 0 <= m < marks@.len() implies marks@[m] == mark_range(
        ghost_set@,
        start_index as int,
        end_index as int,
    ).contains(m) by {
        let extra = Set::new(|n: int| start_index + 1 <= n <= end_index + 1);
        assert(extra.contains(m) == (start_index + 1 <= m <= end_index + 1));
        assert(mark_range(ghost_set@, start_index as int, end_index as int) == ghost_set@.union(extra));
        assert(ghost_set@.union(extra).contains(m) == (ghost_set@.contains(m) || extra.contains(m)));
        if ghost_set@.contains(m) {
            assert(marks@[m]);
            assert(ghost_set@.union(extra).contains(m));
        } else if start_index + 1 <= m && m <= end_index + 1 {
            assert(marks@[m]);
            assert(extra.contains(m));
        } else {
            assert(!marks@[m]);
            assert(!extra.contains(m));
        }
    }
}

fn pop_closed_exec(pending: &mut Vec<usize>, indent: usize)
    ensures
        final(pending)@.map_values(|x: usize| x as int) == pop_closed(
            old(pending)@.map_values(|x: usize| x as int),
            indent as int,
        ),
{
    while pending.len() > 0 && indent <= pending[pending.len() - 1]
        invariant
            pop_closed(pending@.map_values(|x: usize| x as int), indent as int) == pop_closed(
                old(pending)@.map_values(|x: usize| x as int),
                indent as int,
            ),
        decreases pending.len(),
    {
        let ghost before = pending@;
        pending.pop();
        proof {
            assert(pending@.map_values(|x: usize| x as int) =~= before.map_values(|x: usize| x as int).drop_last());
        }
    }
}

/// Docstring line numbers found from the layout, as flags indexed by line number.
fn structural_docstring_marks(lines: &Vec<Vec<char>>) -> (marks: Vec<bool>)
    requires
        lines.len() < usize::MAX,
    ensures
        marks@.len() == lines.len() + 1,
        marks_match(marks@, structural_docstrings(seqs_of(lines@))),
{
    let ghost ls = seqs_of(lines@);
    let mut marks: Vec<bool> = Vec::new();
    let mut k: usize = 0;
    while k <= lines.len()
        invariant
            lines.len() < usize::MAX,
            k <= lines.len() + 1,
            marks@.len() == k,
            forall|m: int| 0 <= m < k ==> !marks@[m],
        decreases lines.len() + 1 - k,
    {
        marks.push(false);
        k += 1;
    }
    let mut pending: Vec<usize> = Vec::new();
    let mut module_pending = true;
    let mut index: usize = 0;
    let ghost mut marked: Set<int> = Set::empty();
    let ghost init = DsState { index: 0, pending: Seq::empty(), module_pending: true, marked: Set::empty() };
    assert(pending@.map_values(|x: usize| x as int) =~= Seq::<int>::empty());
    while index < lines.len()
        invariant
            index <= lines.len(),
            ls == seqs_of(lines@),
            marks@.len() == lines.len() + 1,
            marks_match(marks@, marked),
            ds_run(
                ls,
                DsState {
                    index: index as int,
                    pending: pending@.map_values(|x: usize| x as int),
                    module_pending,
                    marked,
                },
            ) == ds_run(ls, init),
        decreases lines.len() - index,
    {
        let ghost cur = DsState {
            index: index as int,
            pending: pending@.map_values(|x: usize| x as int),
            module_pending,
            marked,
        };
        let line = lines[index].as_slice();
        assert(line@ == ls[index as int]);
        let (a, b) = trim_bounds(line);
        let indent = leading_ws(line);
        let ghost t = trim(line@);
        assert(line@.subrange(a as int, b as int) == t);
        if a == b || line[a] == '#' {
            index += 1;
            proof {
                let n = DsState { index: index as int, ..cur };
                assert(ds_step(ls, cur) == n);
            }
            continue;
        }
        pop_closed_exec(&mut pending, indent);
        let module_try = module_pending && indent == 0;
        if module_try {
            proof {
                lemma_statement_end_bounds(ls, index as int);
            }
            match docstring_statement_end(lines, index) {
                Some(end_index) => {
                    mark_line_range(&mut marks, index, end_index, Ghost(marked));
                    proof {
                        marked = mark_range(marked, index as int, end_index as int);
                    }
                    module_pending = false;
                    index = end_index + 1;
                    proof {
                        let n = DsState {
                            index: index as int,
                            pending: pending@.map_values(|x: usize| x as int),
                            module_pending,
                            marked,
                        };
                        assert(ds_step(ls, cur) == n);
                    }
                    continue;
                },
                None => {
                    module_pending = false;
                },
            }
        }
        let mut tline: Vec<char> = Vec::new();
        let mut q = a;
        while q < b
            invariant
                a <= q <= b <= line.len(),
                tline@ == line@.subrange(a as int, q as int),
            decreases b - q,
        {
            tline.push(line[q]);
            q += 1;
            assert(tline@ =~= line@.subrange(a as int, q as int));
        }
        let header = is_class_or_function_header(tline.as_slice());
        if pending.len() > 0 && indent > pending[pending.len() - 1] {
            proof {
                lemma_statement_end_bounds(ls, index as int);
            }
            match docstring_statement_end(lines, index) {
                Some(end_index) => {
                    mark_line_range(&mut marks, index, end_index, Ghost(marked));
                    proof {
                        marked = mark_range(marked, index as int, end_index as int);
                    }
                    let ghost before = pending@;
                    pending.pop();
                    proof {
                        assert(pending@.map_values(|x: usize| x as int) =~= before.map_values(|x: usize| x as int).drop_last());
                    }
                    index = end_index + 1;
                    proof {
                        let n = DsState {
                            index: index as int,
                            pending: pending@.map_values(|x: usize| x as int),
                            module_pending,
                            marked,
                        };
                        assert(ds_step(ls, cur) == n);
                    }
                    continue;
                },
                None => {
                    let ghost before = pending@;
                    pending.pop();
                    proof {
                        assert(pending@.map_values(|x: usize| x as int) =~= before.map_values(|x: usize| x as int).drop_last());
                    }
                },
            }
        }
        if header {
            let ghost before = pending@;
            pending.push(indent);
            proof {
                assert(pending@.map_values(|x: usize| x as int) =~= before.map_values(|x: usize| x as int).push(indent as int));
            }
        }
        index += 1;
        proof {
            let n = DsState {
                index: index as int,
                pending: pending@.map_values(|x: usize| x as int),
                module_pending,
                marked,
            };
            assert(ds_step(ls, cur) == n);
        }
    }
    marks
}

/// The line numbers (1-based) of the docstrings found from the layout of the
/// lines: those of `structural_docstrings`.
pub fn collect_structural_docstring_lines(lines: &Vec<Vec<char>>) -> (r: BTreeSet<usize>)
    requires
        lines.len() < usize::MAX,
    ensures
        forall|n: usize| n <= lines.len() ==> (#[trigger] r@.contains(n) == structural_docstrings(seqs_of(lines@)).contains(n as int)),
        forall|n: usize| #[trigger] r@.contains(n) ==> n <= lines.len(),
{
    let marks = structural_docstring_marks(lines);
    let ghost set = structural_docstrings(seqs_of(lines@));
    let mut r: BTreeSet<usize> = BTreeSet::new();
    let mut n: usize = 0;
    while n < marks.len()
        invariant
            n <= marks.len() == lines.len() + 1,
            marks_match(marks@, set),
            forall|m: usize| #[trigger] r@.contains(m) <==> (m < n && set.contains(m as int)),
        decreases marks.len() - n,
    {
        if marks[n] {
            r.insert(n);
        }
        n += 1;
    }
    r
}

} // verus!
