//! JavaScript, TypeScript, JSX and TSX: `//` and `/* */` comments, `/** */` doc
//! comments, quoted strings, template literals with nested `${}` expressions, and
//! regular-expression literals.
use vstd::prelude::*;

use crate::lines::{
    analysis_of, assemble, kind_from_flags, kind_of_flags, lemma_lines_match,
    normalize_doc_mixed, seqs_of, spec_normalize_doc_mixed, strings_of, BackendFileAnalysis,
    LineKind,
};
use crate::text::{
    ascii_ws, chars_of, is_ascii_ws, lemma_split_lines_bound, lemma_total_len_prefix,
    lemma_total_len_take, owned, pair_at, pair_at_exec, quad_at, quad_at_exec, split_lines,
    split_lines_exec, total_len, triple_at, triple_at_exec,
};
use crate::text::{concat2, concat3};
use crate::treesitter::{grammar_loads, parse_with, Grammar, ParsedTree};
use crate::types::{
    file_warning, language_name, AnalysisWarning, ClassificationOptions, FileCategory, Language,
};

verus! {

#[derive(Debug, Clone, Copy, PartialEq, Eq, Structural)]
pub enum JMode {
    /// Plain code; `Some(depth)` inside a `${}` template expression with that many
    /// unclosed `{`.
    Code { template_depth: Option<usize> },
    Str { quote: char, escaped: bool },
    Template { escaped: bool },
    Regex { escaped: bool, in_class: bool },
    Block { doc: bool },
}

pub struct JScan {
    pub i: int,
    pub stack: Seq<JMode>,
    pub has_code: bool,
    pub has_comment: bool,
    pub has_doc: bool,
}

pub open spec fn plain_code() -> JMode {
    JMode::Code { template_depth: None }
}

/// The bottom of the stack is plain code and is never popped.
pub open spec fn stack_ok(st: Seq<JMode>) -> bool {
    &&& st.len() >= 1
    &&& st[0] == plain_code()
    &&& forall|k: int| 1 <= k < st.len() ==> st[k] != plain_code()
}

/// The plain-code base mode at the bottom of a non-empty stack.
pub open spec fn base_ok(st: Seq<JMode>) -> bool {
    st.len() >= 1 && st[0] == plain_code()
}

pub open spec fn mode_depth(m: JMode) -> int {
    match m {
        JMode::Code { template_depth: Some(d) } => d as int,
        _ => 0,
    }
}

/// Every brace depth on the stack is at most `bound`.
pub open spec fn depths_within(st: Seq<JMode>, bound: int) -> bool {
    forall|k: int| 0 <= k < st.len() ==> mode_depth(#[trigger] st[k]) <= bound
}

/// `/**` (but not `/***`) at `i`.
pub open spec fn is_doc_block(line: Seq<char>, i: int) -> bool {
    triple_at(line, i, '/', '*', '*') && !quad_at(line, i, '/', '*', '*', '*')
}

/// The last non-whitespace character before `i`.
pub open spec fn prev_significant(line: Seq<char>, i: int) -> Option<char>
    decreases i,
{
    if i <= 0 || i > line.len() {
        None
    } else if !is_ascii_ws(line[i - 1]) {
        Some(line[i - 1])
    } else {
        prev_significant(line, i - 1)
    }
}

/// Characters after which a `/` starts a regular expression rather than a division.
pub open spec fn is_regex_prefix(c: char) -> bool {
    c == '(' || c == '[' || c == '{' || c == '=' || c == ':' || c == ',' || c == '!' || c == '?'
        || c == '+' || c == '-' || c == '*' || c == '%' || c == '&' || c == '|' || c == '^' || c
        == '~' || c == '<' || c == '>'
}

pub open spec fn starts_regex(line: Seq<char>, i: int) -> bool {
    &&& 0 <= i < line.len()
    &&& line[i] == '/'
    &&& !pair_at(line, i, '/', '/')
    &&& !pair_at(line, i, '/', '*')
    &&& match prev_significant(line, i) {
        None => true,
        Some(c) => is_regex_prefix(c),
    }
}

pub open spec fn mark(s: JScan, doc: bool) -> JScan {
    if doc {
        JScan { has_doc: true, ..s }
    } else {
        JScan { has_comment: true, ..s }
    }
}

pub open spec fn set_top(st: Seq<JMode>, m: JMode) -> Seq<JMode> {
    st.update(st.len() - 1, m)
}

/// One step in code (plain or inside `${}`).
pub open spec fn code_step(line: Seq<char>, s: JScan, depth: Option<usize>) -> JScan {
    let i = s.i;
    let c = line[i];
    if is_ascii_ws(c) {
        JScan { i: i + 1, ..s }
    } else if pair_at(line, i, '/', '/') {
        JScan { i: line.len() as int, has_comment: true, ..s }
    } else if pair_at(line, i, '/', '*') {
        let doc = is_doc_block(line, i);
        JScan { i: i + 2, stack: s.stack.push(JMode::Block { doc }), ..mark(s, doc) }
    } else if starts_regex(line, i) {
        JScan {
            i: i + 1,
            stack: s.stack.push(JMode::Regex { escaped: false, in_class: false }),
            has_code: true,
            ..s
        }
    } else if c == '\'' || c == '"' {
        JScan {
            i: i + 1,
            stack: s.stack.push(JMode::Str { quote: c, escaped: false }),
            has_code: true,
            ..s
        }
    } else if c == '`' {
        JScan { i: i + 1, stack: s.stack.push(JMode::Template { escaped: false }), has_code: true, ..s }
    } else if depth is Some && c == '{' {
        JScan {
            i: i + 1,
            stack: set_top(
                s.stack,
                JMode::Code { template_depth: Some((depth->0 + 1) as usize) },
            ),
            has_code: true,
            ..s
        }
    } else if depth is Some && c == '}' {
        if depth->0 == 0 {
            JScan { i: i + 1, stack: s.stack.drop_last(), ..s }
        } else {
            JScan {
                i: i + 1,
                stack: set_top(
                    s.stack,
                    JMode::Code { template_depth: Some((depth->0 - 1) as usize) },
                ),
                has_code: true,
                ..s
            }
        }
    } else {
        JScan { i: i + 1, has_code: true, ..s }
    }
}

pub open spec fn j_step(line: Seq<char>, s: JScan) -> JScan {
    let i = s.i;
    let c = line[i];
    match s.stack.last() {
        JMode::Code { template_depth } => code_step(line, s, template_depth),
        JMode::Str { quote, escaped } => {
            let s2 = JScan { i: i + 1, has_code: true, ..s };
            if c == '\\' && !escaped {
                JScan { stack: set_top(s.stack, JMode::Str { quote, escaped: true }), ..s2 }
            } else if c == quote && !escaped {
                JScan { stack: s.stack.drop_last(), ..s2 }
            } else {
                JScan { stack: set_top(s.stack, JMode::Str { quote, escaped: false }), ..s2 }
            }
        },
        JMode::Template { escaped } => {
            if c == '`' && !escaped {
                JScan { i: i + 1, stack: s.stack.drop_last(), has_code: true, ..s }
            } else if c == '$' && i + 1 < line.len() && line[i + 1] == '{' && !escaped {
                JScan {
                    i: i + 2,
                    stack: s.stack.push(JMode::Code { template_depth: Some(0) }),
                    has_code: true,
                    ..s
                }
            } else if c == '\\' && !escaped {
                JScan {
                    i: i + 1,
                    stack: set_top(s.stack, JMode::Template { escaped: true }),
                    has_code: true,
                    ..s
                }
            } else {
                JScan {
                    i: i + 1,
                    stack: set_top(s.stack, JMode::Template { escaped: false }),
                    has_code: true,
                    ..s
                }
            }
        },
        JMode::Regex { escaped, in_class } => {
            let s2 = JScan { i: i + 1, has_code: true, ..s };
            if c == '\\' && !escaped {
                JScan { stack: set_top(s.stack, JMode::Regex { escaped: true, in_class }), ..s2 }
            } else if c == '[' && !escaped {
                JScan {
                    stack: set_top(s.stack, JMode::Regex { escaped: false, in_class: true }),
                    ..s2
                }
            } else if c == ']' && !escaped && in_class {
                JScan {
                    stack: set_top(s.stack, JMode::Regex { escaped: false, in_class: false }),
                    ..s2
                }
            } else if c == '/' && !escaped && !in_class {
                JScan { stack: s.stack.drop_last(), ..s2 }
            } else {
                JScan { stack: set_top(s.stack, JMode::Regex { escaped: false, in_class }), ..s2 }
            }
        },
        JMode::Block { doc } => {
            let s2 = mark(s, doc);
            if pair_at(line, i, '*', '/') {
                JScan { i: i + 2, stack: s.stack.drop_last(), ..s2 }
            } else {
                JScan { i: i + 1, ..s2 }
            }
        },
    }
}

pub open spec fn j_run(line: Seq<char>, s: JScan) -> JScan
    decreases line.len() - s.i,
{
    if 0 <= s.i < line.len() && s.stack.len() > 0 {
        let n = j_step(line, s);
        if s.i < n.i <= line.len() {
            j_run(line, n)
        } else {
            n
        }
    } else {
        s
    }
}

pub open spec fn j_start(st: Seq<JMode>) -> JScan {
    let top = st.last();
    JScan {
        i: 0,
        stack: st,
        has_code: top is Str || top is Template || top is Regex,
        has_comment: top matches JMode::Block { doc } && !doc,
        has_doc: top matches JMode::Block { doc } && doc,
    }
}

pub open spec fn j_line(line: Seq<char>, st: Seq<JMode>) -> (LineKind, Seq<JMode>) {
    let end = j_run(line, j_start(st));
    (kind_from_flags(end.has_code, end.has_comment, end.has_doc), end.stack)
}

pub open spec fn initial_stack() -> Seq<JMode> {
    seq![plain_code()]
}

pub open spec fn j_fold(lines: Seq<Seq<char>>, n: int) -> (Seq<LineKind>, Seq<JMode>)
    decreases n,
{
    if n <= 0 {
        (Seq::empty(), initial_stack())
    } else {
        let (ks, st) = j_fold(lines, n - 1);
        let (k, st2) = j_line(lines[n - 1], st);
        (ks.push(k), st2)
    }
}

pub open spec fn j_raw_kinds(lines: Seq<Seq<char>>) -> Seq<LineKind> {
    j_fold(lines, lines.len() as int).0
}

pub open spec fn j_effective_kinds(lines: Seq<Seq<char>>, o: ClassificationOptions) -> Seq<LineKind> {
    j_raw_kinds(lines).map_values(|k: LineKind| spec_normalize_doc_mixed(k, o))
}

pub open spec fn j_reason(raw: LineKind, eff: LineKind) -> Seq<char> {
    if raw == LineKind::Doc && eff == LineKind::Code {
        "line matched a JSDoc-style block comment, but classification policy counts docs as code"@
    } else if raw == LineKind::Mixed && eff == LineKind::Comment {
        "line contains JS-family code and comment segments, but classification policy excludes mixed lines from code"@
    } else {
        match eff {
            LineKind::Blank => "line contains only whitespace"@,
            LineKind::Code => "line contains JS-family code, string content, or template content without comments"@,
            LineKind::Comment => "line is part of a regular JS-family comment"@,
            LineKind::Doc => "line is part of a JSDoc-style block comment"@,
            LineKind::Mixed => "line contains JS-family code and comment segments"@,
        }
    }
}

pub open spec fn j_reasons(lines: Seq<Seq<char>>, o: ClassificationOptions) -> Seq<Seq<char>> {
    Seq::new(
        lines.len(),
        |i: int| j_reason(j_raw_kinds(lines)[i], j_effective_kinds(lines, o)[i]),
    )
}

pub fn is_regex_prefix_exec(c: char) -> (r: bool)
    ensures
        r == is_regex_prefix(c),
{
    c == '(' || c == '[' || c == '{' || c == '=' || c == ':' || c == ',' || c == '!' || c == '?'
        || c == '+' || c == '-' || c == '*' || c == '%' || c == '&' || c == '|' || c == '^' || c
        == '~' || c == '<' || c == '>'
}

pub fn previous_significant(line: &[char], i: usize) -> (r: Option<char>)
    requires
        i <= line.len(),
    ensures
        r == prev_significant(line@, i as int),
{
    let mut k = i;
    while k > 0 && ascii_ws(line[k - 1])
        invariant
            k <= i <= line.len(),
            prev_significant(line@, k as int) == prev_significant(line@, i as int),
        decreases k,
    {
        k -= 1;
    }
    if k == 0 {
        None
    } else {
        Some(line[k - 1])
    }
}

pub fn should_start_regex(line: &[char], i: usize) -> (r: bool)
    requires
        i < line.len(),
    ensures
        r == starts_regex(line@, i as int),
{
    if line[i] != '/' || pair_at_exec(line, i, '/', '/') || pair_at_exec(line, i, '/', '*') {
        return false;
    }
    match previous_significant(line, i) {
        None => true,
        Some(c) => is_regex_prefix_exec(c),
    }
}

pub fn is_doc_block_comment(line: &[char], i: usize) -> (r: bool)
    ensures
        r == is_doc_block(line@, i as int),
{
    triple_at_exec(line, i, '/', '*', '*') && !quad_at_exec(line, i, '/', '*', '*', '*')
}

proof fn lemma_push_ok(st: Seq<JMode>, m: JMode, bound: int)
    requires
        base_ok(st),
        depths_within(st, bound),
        mode_depth(m) <= bound,
    ensures
        base_ok(st.push(m)),
        depths_within(st.push(m), bound),
        st.push(m).last() == m,
{
    assert forall|k: int| 0 <= k < st.push(m).len() implies mode_depth(#[trigger] st.push(m)[k])
        <= bound by {
        if k < st.len() {
            assert(st.push(m)[k] == st[k]);
        }
    }
}

proof fn lemma_pop_ok(st: Seq<JMode>, bound: int)
    requires
        base_ok(st),
        st.last() != plain_code(),
        depths_within(st, bound),
    ensures
        base_ok(st.drop_last()),
        depths_within(st.drop_last(), bound),
{
    assert(st.len() >= 2);
    assert forall|k: int| 0 <= k < st.drop_last().len() implies mode_depth(
        #[trigger] st.drop_last()[k],
    ) <= bound by {
        assert(st.drop_last()[k] == st[k]);
    }
}

/// The scan of whitespace in code changes nothing but the position.
proof fn lemma_run_over_whitespace(line: Seq<char>, s: JScan)
    requires
        0 <= s.i <= line.len(),
        s.stack.len() > 0,
        s.stack.last() is Code,
        forall|k: int| s.i <= k < line.len() ==> is_ascii_ws(#[trigger] line[k]),
    ensures
        j_run(line, s) == (JScan { i: line.len() as int, ..s }),
    decreases line.len() - s.i,
{
    if s.i < line.len() {
        let n = j_step(line, s);
        assert(is_ascii_ws(line[s.i]));
        assert(n == (JScan { i: s.i + 1, ..s }));
        lemma_run_over_whitespace(line, n);
    }
}

/// A line of ASCII whitespace read in code is blank and leaves the mode stack as
/// it was.
pub proof fn lemma_whitespace_line_blank(line: Seq<char>, stack: Seq<JMode>)
    requires
        stack.len() > 0,
        stack.last() is Code,
        forall|k: int| 0 <= k < line.len() ==> is_ascii_ws(#[trigger] line[k]),
    ensures
        j_line(line, stack) == (LineKind::Blank, stack),
{
    lemma_run_over_whitespace(line, j_start(stack));
}

proof fn lemma_j_run_blanks(line: Seq<char>, s: JScan, k: int)
    requires
        0 <= s.i <= k <= line.len(),
        s.stack.len() > 0,
        s.stack.last() is Code,
        forall|j: int| s.i <= j < k ==> is_ascii_ws(#[trigger] line[j]),
    ensures
        j_run(line, s) == j_run(line, JScan { i: k, ..s }),
    decreases k - s.i,
{
    if s.i < k {
        assert(is_ascii_ws(line[s.i]));
        let n = j_step(line, s);
        assert(n == JScan { i: s.i + 1, ..s });
        lemma_j_run_blanks(line, n, k);
        assert(JScan { i: k, ..n } == JScan { i: k, ..s });
    } else {
        assert(JScan { i: k, ..s } == s);
    }
}

proof fn lemma_j_run_string_body(line: Seq<char>, s: JScan, q: char, k: int)
    requires
        0 <= s.i <= k < line.len(),
        s.stack.len() > 0,
        s.stack.last() == (JMode::Str { quote: q, escaped: false }),
        s.has_code,
        forall|j: int| s.i <= j < k ==> (#[trigger] line[j]) != q && line[j] != '\\',
    ensures
        j_run(line, s) == j_run(line, JScan { i: k, ..s }),
    decreases k - s.i,
{
    if s.i < k {
        let n = j_step(line, s);
        assert(set_top(s.stack, JMode::Str { quote: q, escaped: false }) =~= s.stack);
        assert(n == JScan { i: s.i + 1, ..s });
        lemma_j_run_string_body(line, n, q, k);
        assert(JScan { i: k, ..n } == JScan { i: k, ..s });
    } else {
        assert(JScan { i: k, ..s } == s);
    }
}

/// A line read in code that is, after blanks, one quoted string (single or double
/// quotes) with no quote of its kind and no backslash inside is code, whatever the
/// string holds (`//` and `/*` included), and leaves the mode stack as it was.
pub proof fn lemma_js_quoted_line_is_code(ws: Seq<char>, q: char, body: Seq<char>, stack: Seq<JMode>)
    requires
        q == '\'' || q == '"',
        stack.len() > 0,
        stack.last() is Code,
        forall|j: int| 0 <= j < ws.len() ==> is_ascii_ws(#[trigger] ws[j]),
        forall|j: int| 0 <= j < body.len() ==> (#[trigger] body[j]) != q && body[j] != '\\',
    ensures
        j_line(ws + seq![q] + body + seq![q], stack) == (LineKind::Code, stack),
{
    let line = ws + seq![q] + body + seq![q];
    let k = ws.len() as int;
    let e = k + 1 + body.len();
    assert(line.len() == e + 1);
    assert(line[k] == q);
    assert(line[e] == q);
    let s0 = j_start(stack);
    assert(!s0.has_code && !s0.has_comment && !s0.has_doc);
    assert forall|j: int| s0.i <= j < k implies is_ascii_ws(#[trigger] line[j]) by {
        assert(line[j] == ws[j]);
    }
    lemma_j_run_blanks(line, s0, k);
    let sk = JScan { i: k, ..s0 };
    let str_mode = JMode::Str { quote: q, escaped: false };
    let s1 = JScan { i: k + 1, stack: stack.push(str_mode), has_code: true, ..sk };
    assert(!is_ascii_ws(q));
    assert(!pair_at(line, k, '/', '/'));
    assert(!pair_at(line, k, '/', '*'));
    assert(!starts_regex(line, k));
    assert(j_step(line, sk) == s1);
    assert(j_run(line, sk) == j_run(line, s1));
    assert forall|j: int| s1.i <= j < e implies (#[trigger] line[j]) != q && line[j] != '\\' by {
        assert(line[j] == body[j - k - 1]);
    }
    lemma_j_run_string_body(line, s1, q, e);
    let se = JScan { i: e, ..s1 };
    let fin = JScan { i: e + 1, stack: stack.push(str_mode).drop_last(), ..se };
    assert(j_step(line, se) == fin);
    assert(stack.push(str_mode).drop_last() =~= stack);
    assert(j_run(line, fin) == fin);
    assert(j_run(line, se) == fin);
}

/// Classifies one line, updating the mode stack carried to the next line.
pub fn classify_line(line: &[char], stack: &mut Vec<JMode>) -> (k: LineKind)
    requires
        base_ok(old(stack)@),
        depths_within(old(stack)@, usize::MAX - line.len()),
    ensures
        (k, final(stack)@) == j_line(line@, old(stack)@),
        base_ok(final(stack)@),
        stack_ok(old(stack)@) ==> stack_ok(final(stack)@),
        final(stack)@[0] == plain_code(),
        (forall|i: int| 0 <= i < line@.len() ==> is_ascii_ws(#[trigger] line@[i])) && old(stack)@.last() is Code
            ==> k == LineKind::Blank && final(stack)@ == old(stack)@,
        forall|b: int|
            depths_within(old(stack)@, b) ==> depths_within(final(stack)@, b + line.len()),
{
    let ghost st0 = stack@;
    let top0 = stack[stack.len() - 1];
    let mut has_code = matches!(top0, JMode::Str { .. } | JMode::Template { .. } | JMode::Regex { .. });
    let mut has_comment = match top0 {
        JMode::Block { doc } => !doc,
        _ => false,
    };
    let mut has_doc = match top0 {
        JMode::Block { doc } => doc,
        _ => false,
    };
    let mut index: usize = 0;
    assert(j_start(st0) == JScan { i: 0, stack: stack@, has_code, has_comment, has_doc });
    while index < line.len()
        invariant
            index <= line.len(),
            base_ok(stack@),
            stack_ok(st0) ==> stack_ok(stack@),
            forall|b: int| depths_within(st0, b) ==> depths_within(stack@, b + index),
            depths_within(st0, usize::MAX - line.len()),
            j_run(line@, JScan { i: index as int, stack: stack@, has_code, has_comment, has_doc })
                == j_run(line@, j_start(st0)),
        decreases line.len() - index,
    {
        let ghost cur = JScan { i: index as int, stack: stack@, has_code, has_comment, has_doc };
        let ghost old_index = index;
        let ghost old_stack = stack@;
        let top_index = stack.len() - 1;
        let c = line[index];
        match stack[top_index] {
            JMode::Code { template_depth } => {
                if ascii_ws(c) {
                    index += 1;
                } else if pair_at_exec(line, index, '/', '/') {
                    has_comment = true;
                    index = line.len();
                } else if pair_at_exec(line, index, '/', '*') {
                    let doc = is_doc_block_comment(line, index);
                    if doc {
                        has_doc = true;
                    } else {
                        has_comment = true;
                    }
                    stack.push(JMode::Block { doc });
                    index += 2;
                } else if should_start_regex(line, index) {
                    has_code = true;
                    stack.push(JMode::Regex { escaped: false, in_class: false });
                    index += 1;
                } else if c == '\'' || c == '"' {
                    has_code = true;
                    stack.push(JMode::Str { quote: c, escaped: false });
                    index += 1;
                } else if c == '`' {
                    has_code = true;
                    stack.push(JMode::Template { escaped: false });
                    index += 1;
                } else {
                    match template_depth {
                        Some(depth) => {
                            if c == '{' {
                                has_code = true;
                                proof {
                                    assert(mode_depth(stack@[top_index as int]) == depth);
                                }
                                stack.set(top_index, JMode::Code { template_depth: Some(depth + 1) });
                            } else if c == '}' {
                                if depth == 0 {
                                    stack.pop();
                                } else {
                                    has_code = true;
                                    stack.set(top_index, JMode::Code { template_depth: Some(depth - 1) });
                                }
                            } else {
                                has_code = true;
                            }
                        },
                        None => {
                            has_code = true;
                        },
                    }
                    index += 1;
                }
            },
            JMode::Str { quote, escaped } => {
                has_code = true;
                if c == '\\' && !escaped {
                    stack.set(top_index, JMode::Str { quote, escaped: true });
                } else if c == quote && !escaped {
                    stack.pop();
                } else {
                    stack.set(top_index, JMode::Str { quote, escaped: false });
                }
                index += 1;
            },
            JMode::Template { escaped } => {
                has_code = true;
                if c == '`' && !escaped {
                    stack.pop();
                    index += 1;
                } else if c == '$' && index + 1 < line.len() && line[index + 1] == '{' && !escaped {
                    stack.push(JMode::Code { template_depth: Some(0) });
                    index += 2;
                } else if c == '\\' && !escaped {
                    stack.set(top_index, JMode::Template { escaped: true });
                    index += 1;
                } else {
                    stack.set(top_index, JMode::Template { escaped: false });
                    index += 1;
                }
            },
            JMode::Regex { escaped, in_class } => {
                has_code = true;
                if c == '\\' && !escaped {
                    stack.set(top_index, JMode::Regex { escaped: true, in_class });
                } else if c == '[' && !escaped {
                    stack.set(top_index, JMode::Regex { escaped: false, in_class: true });
                } else if c == ']' && !escaped && in_class {
                    stack.set(top_index, JMode::Regex { escaped: false, in_class: false });
                } else if c == '/' && !escaped && !in_class {
                    stack.pop();
                } else {
                    stack.set(top_index, JMode::Regex { escaped: false, in_class });
                }
                index += 1;
            },
            JMode::Block { doc } => {
                if doc {
                    has_doc = true;
                } else {
                    has_comment = true;
                }
                if pair_at_exec(line, index, '*', '/') {
                    stack.pop();
                    index += 2;
                } else {
                    index += 1;
                }
            },
        }
        proof {
            let n = JScan { i: index as int, stack: stack@, has_code, has_comment, has_doc };
            assert(j_step(line@, cur) =~= n);
            assert forall|b: int| depths_within(st0, b) implies depths_within(stack@, b + index) by {
                assert(depths_within(old_stack, b + old_index));
                let top = old_stack.last();
                if stack@.len() > old_stack.len() {
                    lemma_push_ok(old_stack, stack@.last(), b + index);
                    assert(stack@ =~= old_stack.push(stack@.last()));
                } else if stack@.len() < old_stack.len() {
                    lemma_pop_ok(old_stack, b + index);
                    assert(stack@ =~= old_stack.drop_last());
                } else {
                    assert forall|k: int| 0 <= k < stack@.len() implies mode_depth(
                        #[trigger] stack@[k],
                    ) <= b + index by {
                        if k < stack@.len() - 1 {
                            assert(stack@[k] == old_stack[k]);
                        } else {
                            assert(mode_depth(stack@[k]) <= mode_depth(old_stack[k]) + 1);
                        }
                    }
                }
            }
            assert(base_ok(stack@)) by {
                if stack@.len() > old_stack.len() {
                    assert(stack@ =~= old_stack.push(stack@.last()));
                    assert(stack@[0] == old_stack[0]);
                } else if stack@.len() < old_stack.len() {
                    assert(stack@ =~= old_stack.drop_last());
                    assert(old_stack.len() >= 2);
                    assert(stack@[0] == old_stack[0]);
                } else if old_stack.len() >= 2 {
                    assert(stack@[0] == old_stack[0]);
                }
            }
            assert(stack_ok(st0) ==> stack_ok(stack@)) by {
                if !stack_ok(old_stack) {
                } else if stack@.len() > old_stack.len() {
                    assert(stack@ =~= old_stack.push(stack@.last()));
                    assert forall|k: int| 1 <= k < stack@.len() implies stack@[k] != plain_code() by {
                        if k < old_stack.len() {
                            assert(stack@[k] == old_stack[k]);
                        }
                    }
                } else if stack@.len() < old_stack.len() {
                    assert(stack@ =~= old_stack.drop_last());
                    assert forall|k: int| 1 <= k < stack@.len() implies stack@[k] != plain_code() by {
                        assert(stack@[k] == old_stack[k]);
                    }
                } else {
                    assert forall|k: int| 1 <= k < stack@.len() implies stack@[k] != plain_code() by {
                        if k < stack@.len() - 1 {
                            assert(stack@[k] == old_stack[k]);
                        }
                    }
                }
            }
        }
    }
    proof {
        if (forall|i: int| 0 <= i < line@.len() ==> is_ascii_ws(#[trigger] line@[i])) && st0.last() is Code {
            lemma_whitespace_line_blank(line@, st0);
        }
    }
    kind_of_flags(has_code, has_comment, has_doc)
}

pub fn line_reason(raw: LineKind, eff: LineKind) -> (r: &'static str)
    ensures
        r@ == j_reason(raw, eff),
{
    if raw == LineKind::Doc && eff == LineKind::Code {
        "line matched a JSDoc-style block comment, but classification policy counts docs as code"
    } else if raw == LineKind::Mixed && eff == LineKind::Comment {
        "line contains JS-family code and comment segments, but classification policy excludes mixed lines from code"
    } else {
        match eff {
            LineKind::Blank => "line contains only whitespace",
            LineKind::Code => "line contains JS-family code, string content, or template content without comments",
            LineKind::Comment => "line is part of a regular JS-family comment",
            LineKind::Doc => "line is part of a JSDoc-style block comment",
            LineKind::Mixed => "line contains JS-family code and comment segments",
        }
    }
}

pub fn classifier_status() -> (r: &'static str)
    ensures
        r@ == "deterministic js-family backend classifier"@,
{
    "deterministic js-family backend classifier"
}

/// Classifies the lines of a JS-family file with the scanner alone.
pub fn classify_lines(contents: &str, options: &ClassificationOptions) -> (r: (
    Vec<Vec<char>>,
    Vec<LineKind>,
    Vec<String>,
))
    requires
        split_lines(contents@).len() <= u32::MAX,
    ensures
        seqs_of(r.0@) == split_lines(contents@),
        r.1@ == j_effective_kinds(split_lines(contents@), *options),
        strings_of(r.2@) == j_reasons(split_lines(contents@), *options),
{
    let text = chars_of(contents);
    let lines = split_lines_exec(text.as_slice());
    let ghost ls = split_lines(contents@);
    proof {
        lemma_lines_match(lines@, contents@);
        lemma_split_lines_bound(contents@);
        lemma_j_fold_len(ls, ls.len() as int);
    }
    let mut kinds: Vec<LineKind> = Vec::new();
    let mut reasons: Vec<String> = Vec::new();
    let mut stack: Vec<JMode> = Vec::new();
    stack.push(JMode::Code { template_depth: None });
    assert(stack@ =~= initial_stack());
    let mut i: usize = 0;
    while i < lines.len()
        invariant
            i <= lines.len(),
            seqs_of(lines@) == ls,
            total_len(ls) <= text.len(),
            j_raw_kinds(ls).len() == ls.len(),
            j_fold(ls, i as int).1 == stack@,
            stack_ok(stack@),
            depths_within(stack@, total_len(ls.take(i as int))),
            kinds@ == j_effective_kinds(ls, *options).take(i as int),
            strings_of(reasons@) == j_reasons(ls, *options).take(i as int),
        decreases lines.len() - i,
    {
        proof {
            assert(lines@[i as int]@ == ls[i as int]);
            lemma_total_len_prefix(ls, i as int);
            lemma_total_len_take(ls, i as int);
            assert forall|k: int| 0 <= k < stack@.len() implies mode_depth(#[trigger] stack@[k])
                <= usize::MAX - lines@[i as int]@.len() by {
                assert(mode_depth(stack@[k]) <= total_len(ls.take(i as int)));
            }
        }
        let raw = classify_line(lines[i].as_slice(), &mut stack);
        let eff = normalize_doc_mixed(raw, options);
        let reason = owned(line_reason(raw, eff));
        proof {
            assert(j_fold(ls, i + 1).0 == j_fold(ls, i as int).0.push(raw));
            lemma_j_fold_prefix(ls, i + 1);
            assert(j_raw_kinds(ls).take(i + 1)[i as int] == raw);
            assert(j_raw_kinds(ls)[i as int] == raw);
            assert(j_effective_kinds(ls, *options)[i as int] == eff);
            assert(j_reasons(ls, *options)[i as int] == reason@);
        }
        let ghost old_reasons = reasons@;
        kinds.push(eff);
        reasons.push(reason);
        proof {
            assert(strings_of(reasons@) =~= strings_of(old_reasons).push(reasons@[i as int]@));
            assert(kinds@ =~= j_effective_kinds(ls, *options).take(i + 1));
            assert(strings_of(reasons@) =~= j_reasons(ls, *options).take(i + 1));
        }
        i += 1;
    }
    proof {
        assert(kinds@ =~= j_effective_kinds(ls, *options));
        assert(strings_of(reasons@) =~= j_reasons(ls, *options));
    }
    (lines, kinds, reasons)
}

proof fn lemma_j_fold_len(lines: Seq<Seq<char>>, n: int)
    requires
        0 <= n,
    ensures
        j_fold(lines, n).0.len() == n,
    decreases n,
{
    if n > 0 {
        lemma_j_fold_len(lines, n - 1);
    }
}

proof fn lemma_j_fold_prefix(lines: Seq<Seq<char>>, n: int)
    requires
        0 <= n <= lines.len(),
    ensures
        j_fold(lines, n).0 == j_raw_kinds(lines).take(n),
    decreases lines.len() - n,
{
    lemma_j_fold_len(lines, n);
    lemma_j_fold_len(lines, lines.len() as int);
    if n < lines.len() {
        lemma_j_fold_prefix(lines, n + 1);
        assert(j_fold(lines, n + 1).0.take(n) =~= j_fold(lines, n).0);
        assert(j_raw_kinds(lines).take(n + 1).take(n) =~= j_raw_kinds(lines).take(n));
    } else {
        assert(j_raw_kinds(lines).take(n) =~= j_raw_kinds(lines));
    }
}

// ---------------------------------------------------------------------------
// The syntax tree: parsed to check that the grammar loads and the text parses; the
// counts come from the scanner either way.
// ---------------------------------------------------------------------------

/// The tree-sitter grammar a JS-family language is parsed with.
pub open spec fn js_parser_name(language: Language) -> Seq<char> {
    match language {
        Language::TypeScript => "tree-sitter-typescript"@,
        Language::Tsx => "tree-sitter-tsx"@,
        _ => "tree-sitter-javascript"@,
    }
}

pub fn parser_name(language: Language) -> (r: &'static str)
    ensures
        r@ == js_parser_name(language),
{
    match language {
        Language::TypeScript => "tree-sitter-typescript",
        Language::Tsx => "tree-sitter-tsx",
        _ => "tree-sitter-javascript",
    }
}

pub open spec fn is_js_family(language: Language) -> bool {
    language == Language::JavaScript || language == Language::Jsx || language
        == Language::TypeScript || language == Language::Tsx
}

/// The grammar a JS-family language is parsed with.
pub open spec fn js_grammar(language: Language) -> Grammar {
    match language {
        Language::TypeScript => Grammar::TypeScript,
        Language::Tsx => Grammar::Tsx,
        _ => Grammar::JavaScript,
    }
}

/// Parses JS-family source with the grammar of `language`: a tree of `source`
/// exactly when that grammar loads. `Err` for a language outside the family, or
/// with the load failure.
pub fn parse(language: Language, source: &str) -> (r: Result<Option<ParsedTree>, String>)
    ensures
        !is_js_family(language) ==> (r matches Err(e) && e@
            == "unsupported JS-family parser selection for language "@ + language_name(language)),
        is_js_family(language) ==> (r is Ok) == grammar_loads(js_grammar(language)),
        is_js_family(language) ==> (r matches Ok(t) ==> (t matches Some(pt) && pt.grammar() == js_grammar(language)
            && pt.source() == source@)),
        is_js_family(language) ==> (r matches Err(e) ==> exists|t: Seq<char>|
            e@ == "failed to load "@ + js_parser_name(language) + ": "@ + t),
{
    match language {
        Language::JavaScript | Language::Jsx => parse_with(Grammar::JavaScript, parser_name(language), source),
        Language::TypeScript => parse_with(Grammar::TypeScript, parser_name(language), source),
        Language::Tsx => parse_with(Grammar::Tsx, parser_name(language), source),
        _ => Err(concat2("unsupported JS-family parser selection for language ", language.as_str())),
    }
}

/// What a parse came to, as plain values: `None` for a tree, `Some(None)` for a
/// parse that gave no tree, `Some(Some(e))` for a failure with message `e`.
pub open spec fn parse_outcome(r: Result<Option<ParsedTree>, String>) -> Option<Option<Seq<char>>> {
    match r {
        Ok(Some(_)) => None,
        Ok(None) => Some(None),
        Err(e) => Some(Some(e@)),
    }
}

/// The warning a parse outcome leaves (none when a tree came back).
pub open spec fn parse_warnings(
    w: Seq<AnalysisWarning>,
    path: Seq<char>,
    language: Language,
    outcome: Option<Option<Seq<char>>>,
) -> bool {
    match outcome {
        None => w.len() == 0,
        Some(None) => w.len() == 1 && file_warning(
            w[0],
            path,
            language,
            js_parser_name(language) + " could not produce a parse tree; using scanner-only classification"@,
        ),
        Some(Some(e)) => w.len() == 1 && file_warning(
            w[0],
            path,
            language,
            "failed to initialize "@ + js_parser_name(language) + ": "@ + e
                + "; using scanner-only classification"@,
        ),
    }
}

/// Classifies JS-family text given the outcome of parsing it.
pub fn classify_with_parse(
    path: &str,
    contents: &str,
    bytes: u64,
    language: Language,
    category: FileCategory,
    options: &ClassificationOptions,
    parsed: &Result<Option<ParsedTree>, String>,
) -> (a: BackendFileAnalysis)
    requires
        split_lines(contents@).len() <= u32::MAX,
    ensures
        analysis_of(
            a,
            path@,
            language,
            category,
            bytes,
            split_lines(contents@),
            j_effective_kinds(split_lines(contents@), *options),
            j_reasons(split_lines(contents@), *options),
        ),
        parse_warnings(a.warnings@, path@, language, parse_outcome(*parsed)),
{
    let mut warnings: Vec<AnalysisWarning> = Vec::new();
    match parsed {
        Ok(Some(_)) => {},
        Ok(None) => {
            let message = concat2(
                parser_name(language),
                " could not produce a parse tree; using scanner-only classification",
            );
            warnings.push(AnalysisWarning::for_file(path, language, message.as_str()));
        },
        Err(e) => {
            let head = concat3("failed to initialize ", parser_name(language), ": ");
            let message = concat3(head.as_str(), e.as_str(), "; using scanner-only classification");
            warnings.push(AnalysisWarning::for_file(path, language, message.as_str()));
        },
    }
    let (lines, kinds, reasons) = classify_lines(contents, options);
    proof {
        lemma_j_fold_len(split_lines(contents@), split_lines(contents@).len() as int);
        assert(seqs_of(lines@).len() == lines@.len());
        assert(strings_of(reasons@).len() == reasons@.len());
    }
    assemble(path, language, category, bytes, &lines, &kinds, &reasons, warnings)
}

/// The warnings of a JS-family file: none when the grammar loads, else the one
/// that names the grammar and the load failure.
pub open spec fn js_parse_warnings(w: Seq<AnalysisWarning>, path: Seq<char>, language: Language) -> bool {
    &&& is_js_family(language) && grammar_loads(js_grammar(language)) ==> w.len() == 0
    &&& is_js_family(language) && !grammar_loads(js_grammar(language)) ==> exists|e: Seq<char>|
        #[trigger] parse_warnings(w, path, language, Some(Some(e))) && exists|t: Seq<char>|
            e == "failed to load "@ + js_parser_name(language) + ": "@ + t
    &&& !is_js_family(language) ==> parse_warnings(
        w,
        path,
        language,
        Some(Some("unsupported JS-family parser selection for language "@ + language_name(language))),
    )
}

/// Classifies the text of a JS-family file. The counts come from the scanner; the
/// parse adds a warning only when the grammar does not load.
pub fn classify_file(
    path: &str,
    contents: &str,
    bytes: u64,
    language: Language,
    category: FileCategory,
    options: &ClassificationOptions,
) -> (a: BackendFileAnalysis)
    requires
        split_lines(contents@).len() <= u32::MAX,
    ensures
        analysis_of(
            a,
            path@,
            language,
            category,
            bytes,
            split_lines(contents@),
            j_effective_kinds(split_lines(contents@), *options),
            j_reasons(split_lines(contents@), *options),
        ),
        js_parse_warnings(a.warnings@, path@, language),
{
    let parsed = parse(language, contents);
    let a = classify_with_parse(path, contents, bytes, language, category, options, &parsed);
    assert(parse_warnings(a.warnings@, path@, language, parse_outcome(parsed)));
    a
}

} // verus!
