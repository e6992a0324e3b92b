//! The Python line scanner: `#` comments and string literals with their prefixes
//! (`r`, `b`, `f`, `u`), single-line and triple-quoted.
use vstd::prelude::*;

use crate::lines::{kind_from_flags, kind_of_flags, LineKind};
use crate::text::{ascii_alnum, ascii_ws, is_ascii_alnum, is_ascii_ws, triple_at, triple_at_exec};

verus! {

#[derive(Debug, Clone, Copy, PartialEq, Eq, Structural)]
pub enum PMode {
    Normal,
    Str { quote: char, triple: bool, raw: bool, escaped: bool },
}

/// How a string literal opens: characters taken by prefix and quotes, the quote
/// character, whether it is triple-quoted and whether it is raw.
#[derive(Debug, Clone, Copy, PartialEq, Eq, Structural)]
pub struct StringStart {
    pub consumed: usize,
    pub quote: char,
    pub triple: bool,
    pub raw: bool,
}

pub open spec fn is_prefix_letter(c: char) -> bool {
    c == 'r' || c == 'R' || c == 'u' || c == 'U' || c == 'b' || c == 'B' || c == 'f' || c == 'F'
}

pub open spec fn is_ident_continue(c: char) -> bool {
    is_ascii_alnum(c) || c == '_'
}

/// End of the run of string-prefix letters starting at `j`.
pub open spec fn prefix_end(line: Seq<char>, j: int) -> int
    decreases line.len() - j,
{
    if 0 <= j < line.len() && is_prefix_letter(line[j]) {
        prefix_end(line, j + 1)
    } else {
        j
    }
}

pub open spec fn has_raw_letter(line: Seq<char>, a: int, b: int) -> bool {
    exists|k: int| a <= k < b && (line[k] == 'r' || line[k] == 'R')
}

/// A string literal (with optional prefix letters) that opens at `i`, unless `i`
/// continues an identifier.
pub open spec fn string_start(line: Seq<char>, i: int) -> Option<StringStart> {
    if 0 < i <= line.len() && is_ident_continue(line[i - 1]) {
        None
    } else {
        let c = prefix_end(line, i);
        if !(0 <= i && c < line.len()) {
            None
        } else {
            let q = line[c];
            if q != '\'' && q != '"' {
                None
            } else {
                let triple = c + 2 < line.len() && line[c + 1] == q && line[c + 2] == q;
                Some(
                    StringStart {
                        consumed: (c - i + if triple {
                            3int
                        } else {
                            1int
                        }) as usize,
                        quote: q,
                        triple,
                        raw: has_raw_letter(line, i, c),
                    },
                )
            }
        }
    }
}

pub struct PScan {
    pub i: int,
    pub mode: PMode,
    pub has_code: bool,
    pub has_comment: bool,
}

pub open spec fn p_step(line: Seq<char>, s: PScan) -> PScan {
    let i = s.i;
    let c = line[i];
    match s.mode {
        PMode::Normal => {
            if is_ascii_ws(c) {
                PScan { i: i + 1, ..s }
            } else if c == '#' {
                PScan { i: line.len() as int, has_comment: true, ..s }
            } else if string_start(line, i) is Some {
                let st = string_start(line, i)->0;
                PScan {
                    i: i + st.consumed,
                    mode: PMode::Str { quote: st.quote, triple: st.triple, raw: st.raw, escaped: false },
                    has_code: true,
                    ..s
                }
            } else {
                PScan { i: i + 1, has_code: true, ..s }
            }
        },
        PMode::Str { quote, triple, raw, escaped } => {
            if triple && triple_at(line, i, quote, quote, quote) {
                PScan { i: i + 3, mode: PMode::Normal, has_code: true, ..s }
            } else if !triple && c == quote && !escaped {
                PScan { i: i + 1, mode: PMode::Normal, has_code: true, ..s }
            } else if !raw && c == '\\' && !escaped {
                PScan {
                    i: i + 1,
                    mode: PMode::Str { quote, triple, raw, escaped: true },
                    has_code: true,
                    ..s
                }
            } else {
                PScan {
                    i: i + 1,
                    mode: PMode::Str { quote, triple, raw, escaped: false },
                    has_code: true,
                    ..s
                }
            }
        },
    }
}

pub open spec fn p_run(line: Seq<char>, s: PScan) -> PScan
    decreases line.len() - s.i,
{
    if 0 <= s.i < line.len() {
        let n = p_step(line, s);
        if s.i < n.i <= line.len() {
            p_run(line, n)
        } else {
            n
        }
    } else {
        s
    }
}

/// A single-quoted string never continues onto the next line.
pub open spec fn close_single_line(m: PMode) -> PMode {
    match m {
        PMode::Str { triple: false, .. } => PMode::Normal,
        other => other,
    }
}

pub open spec fn p_line(line: Seq<char>, m: PMode) -> (LineKind, PMode) {
    let end = p_run(line, PScan { i: 0, mode: m, has_code: m is Str, has_comment: false });
    (kind_from_flags(end.has_code, end.has_comment, false), close_single_line(end.mode))
}

pub open spec fn p_fold(lines: Seq<Seq<char>>, n: int) -> (Seq<LineKind>, PMode)
    decreases n,
{
    if n <= 0 {
        (Seq::empty(), PMode::Normal)
    } else {
        let (ks, m) = p_fold(lines, n - 1);
        let (k, m2) = p_line(lines[n - 1], m);
        (ks.push(k), m2)
    }
}

/// Raw kinds of all lines, before docstrings and policy are applied.
pub open spec fn p_raw_kinds(lines: Seq<Seq<char>>) -> Seq<LineKind> {
    p_fold(lines, lines.len() as int).0
}

pub fn is_prefix_letter_exec(c: char) -> (r: bool)
    ensures
        r == is_prefix_letter(c),
{
    c == 'r' || c == 'R' || c == 'u' || c == 'U' || c == 'b' || c == 'B' || c == 'f' || c == 'F'
}

pub fn is_identifier_continue(c: char) -> (r: bool)
    ensures
        r == is_ident_continue(c),
{
    ascii_alnum(c) || c == '_'
}

pub fn is_triple_string_end(line: &[char], i: usize, quote: char) -> (r: bool)
    ensures
        r == triple_at(line@, i as int, quote, quote, quote),
{
    triple_at_exec(line, i, quote, quote, quote)
}

pub fn match_string_start(line: &[char], i: usize) -> (r: Option<StringStart>)
    requires
        i <= line.len(),
    ensures
        r == string_start(line@, i as int),
        r matches Some(s) ==> i + s.consumed <= line.len() && s.consumed >= 1,
{
    if i > 0 && is_identifier_continue(line[i - 1]) {
        return None;
    }
    let mut cursor = i;
    let mut raw = false;
    while cursor < line.len() && is_prefix_letter_exec(line[cursor])
        invariant
            i <= cursor <= line.len(),
            prefix_end(line@, cursor as int) == prefix_end(line@, i as int),
            raw == has_raw_letter(line@, i as int, cursor as int),
        decreases line.len() - cursor,
    {
        proof {
            if line@[cursor as int] == 'r' || line@[cursor as int] == 'R' {
                assert(has_raw_letter(line@, i as int, cursor + 1));
            } else {
                assert(has_raw_letter(line@, i as int, cursor + 1) == has_raw_letter(
                    line@,
                    i as int,
                    cursor as int,
                ));
            }
        }
        if line[cursor] == 'r' || line[cursor] == 'R' {
            raw = true;
        }
        cursor += 1;
    }
    if cursor >= line.len() {
        return None;
    }
    let quote = line[cursor];
    if quote != '\'' && quote != '"' {
        return None;
    }
    let triple = line.len() - cursor > 2 && line[cursor + 1] == quote && line[cursor + 2] == quote;
    let consumed = if triple {
        cursor - i + 3
    } else {
        cursor - i + 1
    };
    Some(StringStart { consumed, quote, triple, raw })
}

/// Classifies one line, updating the mode carried to the next line.
pub fn classify_line(line: &[char], mode: &mut PMode) -> (k: LineKind)
    ensures
        (k, *final(mode)) == p_line(line@, *old(mode)),
{
    let ghost m0 = *mode;
    let mut has_code = matches!(*mode, PMode::Str { .. });
    let mut has_comment = false;
    let mut index: usize = 0;
    while index < line.len()
        invariant
            index <= line.len(),
            p_run(line@, PScan { i: index as int, mode: *mode, has_code, has_comment }) == p_run(
                line@,
                PScan { i: 0, mode: m0, has_code: m0 is Str, has_comment: false },
            ),
        decreases line.len() - index,
    {
        let ghost cur = PScan { i: index as int, mode: *mode, has_code, has_comment };
        let c = line[index];
        match *mode {
            PMode::Normal => {
                if ascii_ws(c) {
                    index += 1;
                } else if c == '#' {
                    has_comment = true;
                    index = line.len();
                } else {
                    has_code = true;
                    match match_string_start(line, index) {
                        Some(st) => {
                            *mode = PMode::Str {
                                quote: st.quote,
                                triple: st.triple,
                                raw: st.raw,
                                escaped: false,
                            };
                            index += st.consumed;
                        },
                        None => {
                            index += 1;
                        },
                    }
                }
            },
            PMode::Str { quote, triple, raw, escaped } => {
                has_code = true;
                if triple && is_triple_string_end(line, index, quote) {
                    *mode = PMode::Normal;
                    index += 3;
                } else if !triple && c == quote && !escaped {
                    *mode = PMode::Normal;
                    index += 1;
                } else if !raw && c == '\\' && !escaped {
                    *mode = PMode::Str { quote, triple, raw, escaped: true };
                    index += 1;
                } else {
                    *mode = PMode::Str { quote, triple, raw, escaped: false };
                    index += 1;
                }
            },
        }
        proof {
            let n = PScan { i: index as int, mode: *mode, has_code, has_comment };
            assert(p_step(line@, cur) == n);
        }
    }
    if let PMode::Str { triple: false, .. } = *mode {
        *mode = PMode::Normal;
    }
    kind_of_flags(has_code, has_comment, false)
}

pub proof fn lemma_p_fold_len(lines: Seq<Seq<char>>, n: int)
    requires
        0 <= n,
    ensures
        p_fold(lines, n).0.len() == n,
    decreases n,
{
    if n > 0 {
        lemma_p_fold_len(lines, n - 1);
    }
}

pub proof fn lemma_p_fold_prefix(lines: Seq<Seq<char>>, n: int)
    requires
        0 <= n <= lines.len(),
    ensures
        p_fold(lines, n).0 == p_raw_kinds(lines).take(n),
    decreases lines.len() - n,
{
    lemma_p_fold_len(lines, n);
    lemma_p_fold_len(lines, lines.len() as int);
    if n < lines.len() {
        lemma_p_fold_prefix(lines, n + 1);
        assert(p_fold(lines, n + 1).0.take(n) =~= p_fold(lines, n).0);
        assert(p_raw_kinds(lines).take(n + 1).take(n) =~= p_raw_kinds(lines).take(n));
    } else {
        assert(p_raw_kinds(lines).take(n) =~= p_raw_kinds(lines));
    }
}

} // verus!
