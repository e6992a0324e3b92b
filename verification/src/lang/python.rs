//! Python: `#` comments and docstrings. Docstring lines come from the syntax tree
//! (tree-sitter) together with the layout-based detection; when the tree cannot be
//! had, the layout alone decides and a warning says so.
use vstd::prelude::*;

use crate::lang::pydoc::{collect_structural_docstring_lines, structural_docstrings};
use crate::lang::pyscan::{classify_line, lemma_p_fold_prefix, lemma_p_fold_len, p_fold, p_raw_kinds, PMode};
use crate::lines::{
    analysis_of, assemble, lemma_lines_match, seqs_of, strings_of, BackendFileAnalysis, LineKind,
};
use crate::text::{chars_of, concat2, owned, split_lines, split_lines_exec, str_eq};
use crate::treesitter::{
    grammar_loads, node_child_by_field_name, node_descendant_count, node_end_row, node_kind,
    node_named_child, node_named_child_count, node_start_row, parse_with, syntax_descendants,
    syntax_end_row, syntax_has_field, syntax_has_named, syntax_kind, syntax_named_count,
    syntax_start_row, tree_root, Grammar, ParsedTree, SyntaxNode,
};
use crate::types::{file_warning, AnalysisWarning, ClassificationOptions, FileCategory, Language};

verus! {

broadcast use vstd::laws_cmp::group_laws_cmp, vstd::std_specs::btree::group_btree_axioms;

pub open spec fn parser_name_spec() -> Seq<char> {
    "tree-sitter-python"@
}

pub fn parser_name() -> (r: &'static str)
    ensures
        r@ == parser_name_spec(),
{
    "tree-sitter-python"
}

pub fn classifier_status() -> (r: &'static str)
    ensures
        r@ == "tree-sitter-backed python classifier"@,
{
    "tree-sitter-backed python classifier"
}

/// Parses Python source with the tree-sitter grammar: a tree of `source`
/// exactly when the grammar loads.
pub fn parse(source: &str) -> (r: Result<Option<ParsedTree>, String>)
    ensures
        (r is Ok) == grammar_loads(Grammar::Python),
        r matches Ok(t) ==> (t matches Some(pt) && pt.grammar() == Grammar::Python && pt.source() == source@),
        r matches Err(e) ==> exists|t: Seq<char>| e@ == "failed to load "@ + parser_name_spec() + ": "@ + t,
{
    parse_with(Grammar::Python, parser_name(), source)
}

/// Line numbers given as a list, as a set.
pub open spec fn line_set(v: Seq<usize>) -> Set<int> {
    Set::new(|n: int| listed_before(v, v.len() as int, n))
}

/// The docstring line numbers: from the tree (when there is one) and from the layout.
pub open spec fn docstring_set(lines: Seq<Seq<char>>, tree: Option<Set<int>>) -> Set<int> {
    match tree {
        Some(s) => s.union(structural_docstrings(lines)),
        None => structural_docstrings(lines),
    }
}

/// `n` occurs among the first `j` entries of `v`.
pub open spec fn listed_before(v: Seq<usize>, j: int, n: int) -> bool {
    exists|k: int| 0 <= k < j && v[k] as int == n
}

proof fn lemma_listed_before_step(v: Seq<usize>, j: int, n: int)
    requires
        0 <= j < v.len(),
    ensures
        listed_before(v, j + 1, n) == (listed_before(v, j, n) || v[j] as int == n),
{
    if listed_before(v, j + 1, n) && v[j] as int != n {
        let k = choose|k: int| 0 <= k < j + 1 && v[k] as int == n;
        assert(k < j);
    }
    if v[j] as int == n {
        assert(0 <= j < j + 1 && v[j] as int == n);
    }
    if listed_before(v, j, n) {
        let k = choose|k: int| 0 <= k < j && v[k] as int == n;
        assert(0 <= k < j + 1 && v[k] as int == n);
    }
}

/// Docstring lines count as documentation (or as code, by policy); mixed lines may
/// count as comments.
pub open spec fn p_normalize(k: LineKind, in_doc: bool, o: ClassificationOptions) -> LineKind {
    let k2 = if in_doc {
        if o.count_docstrings_as_comments {
            if k == LineKind::Code {
                LineKind::Doc
            } else {
                k
            }
        } else if k == LineKind::Doc {
            LineKind::Code
        } else {
            k
        }
    } else {
        k
    };
    if k2 == LineKind::Mixed && !o.mixed_lines_as_code {
        LineKind::Comment
    } else {
        k2
    }
}

pub open spec fn p_effective_kinds(
    lines: Seq<Seq<char>>,
    docs: Set<int>,
    o: ClassificationOptions,
) -> Seq<LineKind> {
    Seq::new(lines.len(), |i: int| p_normalize(p_raw_kinds(lines)[i], docs.contains(i + 1), o))
}

pub open spec fn p_reason(raw: LineKind, eff: LineKind) -> Seq<char> {
    if raw == LineKind::Mixed && eff == LineKind::Comment {
        "line contains Python code and an inline comment, but classification policy excludes mixed lines from code"@
    } else {
        match eff {
            LineKind::Blank => "line contains only whitespace"@,
            LineKind::Code => "line contains Python code or string literal content without comments"@,
            LineKind::Comment => "line is a regular Python comment"@,
            LineKind::Doc => "line is part of a Python docstring"@,
            LineKind::Mixed => "line contains Python code and an inline comment"@,
        }
    }
}

pub open spec fn p_reasons(lines: Seq<Seq<char>>, docs: Set<int>, o: ClassificationOptions) -> Seq<
    Seq<char>,
> {
    Seq::new(
        lines.len(),
        |i: int| p_reason(p_raw_kinds(lines)[i], p_effective_kinds(lines, docs, o)[i]),
    )
}

pub fn normalize_kind(k: LineKind, in_doc: bool, o: &ClassificationOptions) -> (r: LineKind)
    ensures
        r == p_normalize(k, in_doc, *o),
{
    let k2 = if in_doc {
        if o.count_docstrings_as_comments {
            if k == LineKind::Code {
                LineKind::Doc
            } else {
                k
            }
        } else if k == LineKind::Doc {
            LineKind::Code
        } else {
            k
        }
    } else {
        k
    };
    if k2 == LineKind::Mixed && !o.mixed_lines_as_code {
        LineKind::Comment
    } else {
        k2
    }
}

pub fn line_reason(raw: LineKind, eff: LineKind) -> (r: &'static str)
    ensures
        r@ == p_reason(raw, eff),
{
    if raw == LineKind::Mixed && eff == LineKind::Comment {
        "line contains Python code and an inline comment, but classification policy excludes mixed lines from code"
    } else {
        match eff {
            LineKind::Blank => "line contains only whitespace",
            LineKind::Code => "line contains Python code or string literal content without comments",
            LineKind::Comment => "line is a regular Python comment",
            LineKind::Doc => "line is part of a Python docstring",
            LineKind::Mixed => "line contains Python code and an inline comment",
        }
    }
}

/// Adding a number to a list adds it to the list's set.
proof fn lemma_line_set_push(v: Seq<usize>, x: usize)
    ensures
        line_set(v.push(x)) == line_set(v).insert(x as int),
{
    let w = v.push(x);
    assert forall|n: int| #[trigger] line_set(w).contains(n) == line_set(v).insert(x as int).contains(n) by {
        lemma_listed_before_step(w, v.len() as int, n);
        assert(listed_before(w, v.len() as int, n) == listed_before(v, v.len() as int, n)) by {
            if listed_before(w, v.len() as int, n) {
                let k = choose|k: int| 0 <= k < v.len() && w[k] as int == n;
                assert(v[k] == w[k]);
            }
            if listed_before(v, v.len() as int, n) {
                let k = choose|k: int| 0 <= k < v.len() && v[k] as int == n;
                assert(v[k] == w[k]);
            }
        }
    }
    assert(line_set(w) =~= line_set(v).insert(x as int));
}

/// The lines of a docstring statement at path `q`: an expression statement whose
/// only named child is a string, from its first row to its last, counted from 1.
pub open spec fn statement_rows(g: Grammar, s: Seq<char>, q: Seq<(int, Seq<char>)>) -> Set<int> {
    let first = syntax_start_row(g, s, q) + 1;
    let last = syntax_end_row(g, s, q) + 1;
    if syntax_kind(g, s, q) == "expression_statement"@ && syntax_named_count(g, s, q) == 1
        && syntax_has_named(g, s, q, 0) && syntax_kind(g, s, q.push((0, Seq::<char>::empty()))) == "string"@
        && syntax_end_row(g, s, q) < usize::MAX - 1 && syntax_start_row(g, s, q) <= syntax_end_row(g, s, q) {
        Set::new(|n: int| first <= n <= last)
    } else {
        Set::empty()
    }
}

/// The docstring lines a node at `p` marks: the module's first statement, or the
/// first statement of a class or function body.
pub open spec fn node_marks(g: Grammar, s: Seq<char>, p: Seq<(int, Seq<char>)>) -> Set<int> {
    let k = syntax_kind(g, s, p);
    let body = p.push((-1, "body"@));
    if k == "module"@ {
        if syntax_has_named(g, s, p, 0) {
            statement_rows(g, s, p.push((0, Seq::<char>::empty())))
        } else {
            Set::empty()
        }
    } else if k == "class_definition"@ || k == "function_definition"@ {
        if syntax_has_field(g, s, p, "body"@) && syntax_has_named(g, s, body, 0) {
            statement_rows(g, s, body.push((0, Seq::<char>::empty())))
        } else {
            Set::empty()
        }
    } else {
        Set::empty()
    }
}

/// The docstring lines marked at `p` and below it, visiting at most `fuel` levels.
pub open spec fn rows_below(g: Grammar, s: Seq<char>, p: Seq<(int, Seq<char>)>, fuel: nat) -> Set<int>
    decreases fuel, 0nat,
{
    if fuel == 0 {
        Set::empty()
    } else {
        node_marks(g, s, p).union(children_rows(g, s, p, syntax_named_count(g, s, p) as nat, (fuel - 1) as nat))
    }
}

/// The docstring lines below the first `n` named children of `p`.
pub open spec fn children_rows(g: Grammar, s: Seq<char>, p: Seq<(int, Seq<char>)>, n: nat, fuel: nat) -> Set<int>
    decreases fuel, n + 1,
{
    if n == 0 {
        Set::empty()
    } else {
        children_rows(g, s, p, (n - 1) as nat, fuel).union(
            if syntax_has_named(g, s, p, n - 1) {
                rows_below(g, s, p.push((n - 1, Seq::<char>::empty())), fuel)
            } else {
                Set::empty()
            },
        )
    }
}

/// The docstring lines of the syntax tree of `source`: every node from the root
/// down, as many levels as the root has descendants (which reaches every node).
pub open spec fn tree_docstring_rows(g: Grammar, source: Seq<char>) -> Set<int> {
    rows_below(g, source, Seq::empty(), syntax_descendants(g, source, Seq::empty()) as nat)
}

/// Adds the lines of a docstring statement.
fn mark_docstring_statement(statement: &SyntaxNode, lines: &mut Vec<usize>)
    ensures
        line_set(final(lines)@) == line_set(old(lines)@).union(
            statement_rows(statement.grammar(), statement.source(), statement.path()),
        ),
{
    let ghost (g, s, q) = (statement.grammar(), statement.source(), statement.path());
    proof {
        assert(line_set(lines@) =~= line_set(lines@).union(Set::<int>::empty()));
    }
    let kind = node_kind(statement);
    if !str_eq(kind.as_str(), "expression_statement") || node_named_child_count(statement) != 1 {
        return;
    }
    let value = match node_named_child(statement, 0) {
        Some(v) => v,
        None => {
            return;
        },
    };
    let value_kind = node_kind(&value);
    if !str_eq(value_kind.as_str(), "string") {
        return;
    }
    let start_row = node_start_row(statement);
    let end_row = node_end_row(statement);
    if end_row >= usize::MAX - 1 || start_row > end_row {
        return;
    }
    let ghost before = lines@;
    let mut line = start_row + 1;
    while line <= end_row + 1
        invariant
            end_row < usize::MAX - 1,
            start_row + 1 <= line <= end_row + 2,
            line_set(lines@) == line_set(before).union(Set::new(|n: int| start_row + 1 <= n < line)),
        decreases end_row + 2 - line,
    {
        proof {
            lemma_line_set_push(lines@, line);
        }
        lines.push(line);
        line += 1;
        proof {
            assert(line_set(lines@) =~= line_set(before).union(Set::new(|n: int| start_row + 1 <= n < line)));
        }
    }
    proof {
        assert(statement_rows(g, s, q) =~= Set::new(|n: int| start_row + 1 <= n < line));
    }
}

/// Adds the docstring lines marked at `node` and below it, visiting at most
/// `fuel` levels.
fn collect_from_node(node: &SyntaxNode, fuel: usize, lines: &mut Vec<usize>)
    ensures
        line_set(final(lines)@) == line_set(old(lines)@).union(
            rows_below(node.grammar(), node.source(), node.path(), fuel as nat),
        ),
    decreases fuel,
{
    let ghost (g, s, p) = (node.grammar(), node.source(), node.path());
    if fuel == 0 {
        assert(line_set(lines@) =~= line_set(lines@).union(Set::<int>::empty()));
        return;
    }
    let ghost start = lines@;
    let kind = node_kind(node);
    if str_eq(kind.as_str(), "module") {
        if let Some(statement) = node_named_child(node, 0) {
            mark_docstring_statement(&statement, lines);
        } else {
            assert(line_set(lines@) =~= line_set(lines@).union(Set::<int>::empty()));
        }
    } else if str_eq(kind.as_str(), "class_definition") || str_eq(kind.as_str(), "function_definition") {
        if let Some(body) = node_child_by_field_name(node, "body") {
            if let Some(statement) = node_named_child(&body, 0) {
                mark_docstring_statement(&statement, lines);
            } else {
                assert(line_set(lines@) =~= line_set(lines@).union(Set::<int>::empty()));
            }
        } else {
            assert(line_set(lines@) =~= line_set(lines@).union(Set::<int>::empty()));
        }
    } else {
        assert(line_set(lines@) =~= line_set(lines@).union(Set::<int>::empty()));
    }
    assert(line_set(lines@) == line_set(start).union(node_marks(g, s, p)));
    let ghost after_marks = lines@;
    let count = node_named_child_count(node);
    let mut i: usize = 0;
    proof {
        assert(line_set(lines@) =~= line_set(after_marks).union(children_rows(g, s, p, 0, (fuel - 1) as nat)));
    }
    while i < count
        invariant
            i <= count,
            count <= u32::MAX,
            count == syntax_named_count(g, s, p),
            fuel > 0,
            node.grammar() == g,
            node.source() == s,
            node.path() == p,
            line_set(lines@) == line_set(after_marks).union(children_rows(g, s, p, i as nat, (fuel - 1) as nat)),
        decreases count - i,
    {
        let ghost before = lines@;
        if let Some(child) = node_named_child(node, i as u32) {
            collect_from_node(&child, fuel - 1, lines);
        } else {
            assert(line_set(lines@) =~= line_set(lines@).union(Set::<int>::empty()));
        }
        proof {
            assert(children_rows(g, s, p, (i + 1) as nat, (fuel - 1) as nat) == children_rows(g, s, p, i as nat, (fuel - 1) as nat).union(
                if syntax_has_named(g, s, p, i as int) {
                    rows_below(g, s, p.push((i as int, Seq::<char>::empty())), (fuel - 1) as nat)
                } else {
                    Set::empty()
                },
            ));
            assert(line_set(lines@) =~= line_set(after_marks).union(children_rows(g, s, p, (i + 1) as nat, (fuel - 1) as nat)));
        }
        i += 1;
    }
    proof {
        assert(line_set(lines@) =~= line_set(start).union(rows_below(g, s, p, fuel as nat)));
    }
}

/// Docstring line numbers read from the tree-sitter syntax tree: the first
/// statement of the module and of each class or function body, when it is a lone
/// string. It succeeds exactly when the grammar loads; `Err` carries the load
/// failure.
pub fn collect_docstring_lines(source: &str) -> (r: Result<Vec<usize>, String>)
    ensures
        (r is Ok) == grammar_loads(Grammar::Python),
        r matches Ok(v) ==> line_set(v@) == tree_docstring_rows(Grammar::Python, source@),
        r matches Err(e) ==> exists|t: Seq<char>| e@ == "failed to load "@ + parser_name_spec() + ": "@ + t,
{
    let tree = match parse(source) {
        Err(e) => {
            return Err(e);
        },
        Ok(None) => {
            return Err(concat2(parser_name(), " could not produce a parse tree"));
        },
        Ok(Some(t)) => t,
    };
    let root = tree_root(&tree);
    let budget = node_descendant_count(&root);
    let mut lines: Vec<usize> = Vec::new();
    collect_from_node(&root, budget, &mut lines);
    proof {
        assert(line_set(Seq::<usize>::empty()) =~= Set::<int>::empty());
        assert(line_set(lines@) =~= tree_docstring_rows(Grammar::Python, source@));
    }
    Ok(lines)
}

/// Classifies Python text given what the syntax tree said about docstrings:
/// `Ok(lines)` adds those line numbers to the layout-based ones, `Err(reason)` leaves
/// the layout alone in charge and records a warning.
pub fn classify_with_tree_lines(
    path: &str,
    contents: &str,
    bytes: u64,
    category: FileCategory,
    options: &ClassificationOptions,
    tree_lines: &Result<Vec<usize>, String>,
) -> (a: BackendFileAnalysis)
    requires
        split_lines(contents@).len() < u32::MAX,
    ensures
        analysis_of(
            a,
            path@,
            Language::Python,
            category,
            bytes,
            split_lines(contents@),
            p_effective_kinds(split_lines(contents@), docstring_set(split_lines(contents@), tree_option(*tree_lines)), *options),
            p_reasons(split_lines(contents@), docstring_set(split_lines(contents@), tree_option(*tree_lines)), *options),
        ),
        tree_lines is Ok ==> a.warnings@.len() == 0,
        tree_lines matches Err(e) ==> fallback_warning(a.warnings@, path@, e@),
{
    let text = chars_of(contents);
    let lines = split_lines_exec(text.as_slice());
    let ghost ls = split_lines(contents@);
    let ghost docs = docstring_set(ls, tree_option(*tree_lines));
    proof {
        lemma_lines_match(lines@, contents@);
        lemma_p_fold_len(ls, ls.len() as int);
    }
    let mut flags = collect_structural_docstring_lines(&lines);
    let mut warnings: Vec<AnalysisWarning> = Vec::new();
    let ghost structural = structural_docstrings(ls);
    match tree_lines {
        Ok(v) => {
            let mut j: usize = 0;
            while j < v.len()
                invariant
                    j <= v.len(),
                    forall|n: usize|
                        n <= lines.len() ==> #[trigger] flags@.contains(n) == (structural.contains(n as int)
                            || listed_before(v@, j as int, n as int)),
                decreases v.len() - j,
            {
                let x = v[j];
                let ghost before = flags@;
                flags.insert(x);
                j += 1;
                proof {
                    assert forall|n: usize| n <= lines.len() implies #[trigger] flags@.contains(n) == (
                    structural.contains(n as int) || listed_before(v@, j as int, n as int)) by {
                        lemma_listed_before_step(v@, j - 1, n as int);
                        assert(before.contains(n) == (structural.contains(n as int) || listed_before(v@, j - 1, n as int)));
                        assert(v@[j - 1] == x);
                    }
                }
            }
            proof {
                assert(*tree_lines == Ok::<Vec<usize>, String>(*v));
                assert forall|n: usize| n <= lines.len() implies #[trigger] flags@.contains(n) == docs.contains(n as int) by {
                    assert(line_set(v@).contains(n as int) == listed_before(v@, v@.len() as int, n as int));
                    assert(docs.contains(n as int) == (line_set(v@).contains(n as int) || structural.contains(n as int)));
                }
            }
        },
        Err(e) => {
            let message = concat2("docstring detection fell back to line scanning because ", e.as_str());
            warnings.push(AnalysisWarning::for_file(path, Language::Python, message.as_str()));
        },
    }
    assert(forall|n: usize| n <= lines.len() ==> #[trigger] flags@.contains(n) == docs.contains(n as int));
    let mut kinds: Vec<LineKind> = Vec::new();
    let mut reasons: Vec<String> = Vec::new();
    let mut mode = PMode::Normal;
    let mut i: usize = 0;
    while i < lines.len()
        invariant
            i <= lines.len(),
            seqs_of(lines@) == ls,
            forall|n: usize| n <= lines.len() ==> #[trigger] flags@.contains(n) == docs.contains(n as int),
            p_raw_kinds(ls).len() == ls.len(),
            p_fold(ls, i as int).1 == mode,
            kinds@ == p_effective_kinds(ls, docs, *options).take(i as int),
            strings_of(reasons@) == p_reasons(ls, docs, *options).take(i as int),
        decreases lines.len() - i,
    {
        proof {
            assert(lines@[i as int]@ == ls[i as int]);
            assert(ls.len() == lines.len());
            assert(p_reasons(ls, docs, *options).len() == ls.len());
            assert(strings_of(reasons@).len() == reasons@.len());
            assert(reasons@.len() == i);
        }
        let raw = classify_line(lines[i].as_slice(), &mut mode);
        let eff = normalize_kind(raw, flags.contains(&(i + 1)), options);
        let reason = owned(line_reason(raw, eff));
        proof {
            assert(p_fold(ls, i + 1).0 == p_fold(ls, i as int).0.push(raw));
            lemma_p_fold_prefix(ls, i + 1);
            assert(p_raw_kinds(ls).take(i + 1)[i as int] == raw);
            assert(p_raw_kinds(ls)[i as int] == raw);
            assert(flags@.contains((i + 1) as usize) == docs.contains(i + 1));
            assert(p_effective_kinds(ls, docs, *options)[i as int] == eff);
            assert(p_reasons(ls, docs, *options)[i as int] == reason@);
        }
        let ghost old_reasons = reasons@;
        kinds.push(eff);
        reasons.push(reason);
        proof {
            assert(old_reasons.len() == i);
            assert(reasons@.len() == i + 1);
            assert(strings_of(reasons@) =~= strings_of(old_reasons).push(reasons@[i as int]@));
            assert(kinds@ =~= p_effective_kinds(ls, docs, *options).take(i + 1));
            assert(strings_of(reasons@) =~= p_reasons(ls, docs, *options).take(i + 1));
        }
        i += 1;
    }
    proof {
        assert(kinds@ =~= p_effective_kinds(ls, docs, *options));
        assert(strings_of(reasons@) =~= p_reasons(ls, docs, *options));
    }
    assemble(path, Language::Python, category, bytes, &lines, &kinds, &reasons, warnings)
}

/// The one warning left when the syntax tree could not be had.
pub open spec fn fallback_warning(w: Seq<AnalysisWarning>, path: Seq<char>, reason: Seq<char>) -> bool {
    &&& w.len() == 1
    &&& file_warning(
        w[0],
        path,
        Language::Python,
        "docstring detection fell back to line scanning because "@ + reason,
    )
}

/// What the tree said, as a set of line numbers (`None` when there was no tree).
pub open spec fn tree_option(r: Result<Vec<usize>, String>) -> Option<Set<int>> {
    match r {
        Ok(v) => Some(line_set(v@)),
        Err(_) => None,
    }
}

/// The docstring lines the syntax tree gives for `source`, when the grammar loads.
pub open spec fn python_tree_rows(source: Seq<char>) -> Option<Set<int>> {
    if grammar_loads(Grammar::Python) {
        Some(tree_docstring_rows(Grammar::Python, source))
    } else {
        None
    }
}

/// Classifies the text of a Python file: docstring lines are the syntax tree's
/// together with the layout-based ones; without the grammar, the layout alone
/// decides and one warning says so.
pub fn classify_file(
    path: &str,
    contents: &str,
    bytes: u64,
    category: FileCategory,
    options: &ClassificationOptions,
) -> (a: BackendFileAnalysis)
    requires
        split_lines(contents@).len() < u32::MAX,
    ensures
        analysis_of(
            a,
            path@,
            Language::Python,
            category,
            bytes,
            split_lines(contents@),
            p_effective_kinds(split_lines(contents@), docstring_set(split_lines(contents@), python_tree_rows(contents@)), *options),
            p_reasons(split_lines(contents@), docstring_set(split_lines(contents@), python_tree_rows(contents@)), *options),
        ),
        a.warnings@.len() == if grammar_loads(Grammar::Python) {
            0int
        } else {
            1int
        },
{
    let tree_lines = collect_docstring_lines(contents);
    let a = classify_with_tree_lines(path, contents, bytes, category, options, &tree_lines);
    assert(tree_option(tree_lines) == python_tree_rows(contents@));
    a
}

} // verus!
