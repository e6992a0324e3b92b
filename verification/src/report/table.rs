//! Text tables: columns sized to their widest cell (long cells shortened in the
//! middle where a column has a limit), left or right aligned, two spaces apart,
//! with optional terminal colours for headings and header rows.
use vstd::prelude::*;

use crate::analyze::{warning_view, warning_views};
use crate::metrics::{totals_fit, totals_of, FileMetrics, MetricsSummary, ScanReport};
use crate::report::listing::{format_warning, trimmed_end, warning_text};
use crate::report::summary::{group_key, groups_for, groups_of, of_key};
use crate::report::top::{file_order, select_dirs, spec_entry, top_dirs, top_files, top_files_of};
use crate::sorting::in_order;
use crate::report::{group_by_name, GroupSummary, ScanGroupBy, ScanRenderOptions, TopFileEntry};
use crate::text::{
    chars_of, decimal, decimal_string, is_ws, push_chars, push_range, push_str, string_from_chars, trim_end,
    trim_end_from,
};
use crate::types::{category_name, language_name};

verus! {

#[derive(Debug, Clone, Copy, PartialEq, Eq, Structural)]
pub enum Alignment {
    Left,
    Right,
}

/// A column: its header, alignment and the widest its cells may be shown.
#[derive(Debug, Clone, Copy)]
pub struct Column {
    pub header: &'static str,
    pub alignment: Alignment,
    pub max_width: Option<usize>,
}

impl Column {
    pub fn left(header: &'static str, max_width: Option<usize>) -> (c: Self)
        ensures
            c.header == header,
            c.alignment == Alignment::Left,
            c.max_width == max_width,
    {
        Column { header, alignment: Alignment::Left, max_width }
    }

    pub fn right(header: &'static str) -> (c: Self)
        ensures
            c.header == header,
            c.alignment == Alignment::Right,
            c.max_width is None,
    {
        Column { header, alignment: Alignment::Right, max_width: None }
    }
}

/// The tone of a section heading.
#[derive(Debug, Clone, Copy, PartialEq, Eq, Structural)]
pub enum HeadingTone {
    Info,
    Warning,
}

/// `n` copies of `c`.
pub open spec fn repeat(c: char, n: nat) -> Seq<char> {
    Seq::new(n, |i: int| c)
}

/// A value shortened to `width` characters by cutting out its middle: a third of
/// the room (rounded down) before `...`, the rest after; only dots when the room
/// is three or less.
pub open spec fn spec_truncate_middle(value: Seq<char>, width: nat) -> Seq<char> {
    if value.len() <= width {
        value
    } else if width <= 3 {
        repeat('.', width)
    } else {
        let available = (width - 3) as nat;
        let suffix = (available * 2) / 3;
        let prefix = (available - suffix) as nat;
        value.take(prefix as int) + "..."@ + value.skip(value.len() - suffix)
    }
}

/// The value padded with spaces to `width`, on the right (left-aligned) or the
/// left (right-aligned).
pub open spec fn pad(value: Seq<char>, width: nat, alignment: Alignment) -> Seq<char> {
    if value.len() >= width {
        value
    } else {
        match alignment {
            Alignment::Left => value + repeat(' ', (width - value.len()) as nat),
            Alignment::Right => repeat(' ', (width - value.len()) as nat) + value,
        }
    }
}

pub open spec fn limit(width: nat, max_width: Option<usize>) -> nat {
    match max_width {
        Some(m) => if width < m {
            width
        } else {
            m as nat
        },
        None => width,
    }
}

pub open spec fn cell_text(value: Seq<char>, width: nat, c: Column) -> Seq<char> {
    pad(spec_truncate_middle(value, limit(width, c.max_width)), width, c.alignment)
}

/// A truncated value is exactly as long as the room it was given, or as long as
/// it was when it already fitted.
pub proof fn lemma_truncate_middle_len(value: Seq<char>, width: nat)
    ensures
        spec_truncate_middle(value, width).len() == if value.len() <= width {
            value.len()
        } else {
            width
        },
{
    if value.len() > width && width > 3 {
        reveal_strlit("...");
        let available = (width - 3) as nat;
        let suffix = (available * 2) / 3;
        assert(suffix <= available) by (nonlinear_arith)
            requires
                suffix == (available * 2) / 3,
        ;
    }
}

/// Every cell is exactly as wide as its column, so the columns of a table line up.
pub proof fn lemma_cell_fills_column(value: Seq<char>, width: nat, c: Column)
    ensures
        cell_text(value, width, c).len() == width,
{
    lemma_truncate_middle_len(value, limit(width, c.max_width));
}

/// Items joined with `sep` between them.
pub open spec fn join(items: Seq<Seq<char>>, sep: Seq<char>) -> Seq<char>
    decreases items.len(),
{
    if items.len() == 0 {
        Seq::empty()
    } else if items.len() == 1 {
        items[0]
    } else {
        join(items.drop_last(), sep) + sep + items.last()
    }
}

/// Widest shown cell of column `i` among the first `n` rows.
pub open spec fn widest(rows: Seq<Seq<Seq<char>>>, i: int, max_width: Option<usize>, n: int) -> nat
    decreases n,
{
    if n <= 0 {
        0
    } else {
        let rest = widest(rows, i, max_width, n - 1);
        let w = if 0 <= i < rows[n - 1].len() {
            limit(rows[n - 1][i].len(), max_width)
        } else {
            0
        };
        if w > rest {
            w
        } else {
            rest
        }
    }
}

pub open spec fn column_width(columns: Seq<Column>, rows: Seq<Seq<Seq<char>>>, i: int) -> nat {
    let h = columns[i].header@.len();
    let d = widest(rows, i, columns[i].max_width, rows.len() as int);
    if h > d {
        h
    } else {
        d
    }
}

pub open spec fn widths_of(columns: Seq<Column>, rows: Seq<Seq<Seq<char>>>) -> Seq<nat> {
    Seq::new(columns.len(), |i: int| column_width(columns, rows, i))
}

pub open spec fn header_text(columns: Seq<Column>, widths: Seq<nat>) -> Seq<char> {
    join(
        Seq::new(columns.len(), |i: int| pad(columns[i].header@, widths[i], Alignment::Left)),
        "  "@,
    )
}

pub open spec fn row_text(columns: Seq<Column>, widths: Seq<nat>, values: Seq<Seq<char>>) -> Seq<char> {
    let n = if values.len() < columns.len() {
        values.len()
    } else {
        columns.len()
    };
    join(Seq::new(n, |i: int| cell_text(values[i], widths[i], columns[i])), "  "@)
}

pub open spec fn decorated(row: Seq<char>, use_color: bool) -> Seq<char> {
    if use_color {
        "\u{1b}[2m"@ + row + "\u{1b}[0m"@
    } else {
        row
    }
}

pub open spec fn heading_text(title: Seq<char>, tone: HeadingTone, use_color: bool) -> Seq<char> {
    if !use_color {
        title
    } else {
        match tone {
            HeadingTone::Info => "\u{1b}[1;36m"@ + title + "\u{1b}[0m"@,
            HeadingTone::Warning => "\u{1b}[1;33m"@ + title + "\u{1b}[0m"@,
        }
    }
}

/// Lines, each followed by a newline.
pub open spec fn lines_text(lines: Seq<Seq<char>>) -> Seq<char>
    decreases lines.len(),
{
    if lines.len() == 0 {
        Seq::empty()
    } else {
        lines_text(lines.drop_last()) + lines.last() + "\n"@
    }
}

/// A table: the (possibly dimmed) header row, then each row, each on its own line.
pub open spec fn table_text(columns: Seq<Column>, rows: Seq<Seq<Seq<char>>>, use_color: bool) -> Seq<char> {
    let widths = widths_of(columns, rows);
    decorated(header_text(columns, widths), use_color) + "\n"@ + lines_text(
        rows.map_values(|r: Seq<Seq<char>>| row_text(columns, widths, r)),
    )
}

/// Shortens a value to `width` characters by cutting out its middle.
pub fn truncate_middle(value: &str, width: usize) -> (r: String)
    ensures
        r@ == spec_truncate_middle(value@, width as nat),
{
    let cs = chars_of(value);
    if cs.len() <= width {
        return value.to_owned();
    }
    let mut out: Vec<char> = Vec::new();
    if width <= 3 {
        let mut i: usize = 0;
        while i < width
            invariant
                i <= width,
                out@ == repeat('.', i as nat),
            decreases width - i,
        {
            out.push('.');
            i += 1;
            assert(out@ =~= repeat('.', i as nat));
        }
        return string_from_chars(out.as_slice());
    }
    let available = width - 3;
    let suffix_width = (available / 3) * 2 + ((available % 3) * 2) / 3;
    assert(suffix_width == (available * 2) / 3) by (nonlinear_arith)
        requires
            suffix_width == (available / 3) * 2 + ((available % 3) * 2) / 3,
    ;
    let prefix_width = available - suffix_width;
    push_range(&mut out, cs.as_slice(), 0, prefix_width);
    push_str(&mut out, "...");
    push_range(&mut out, cs.as_slice(), cs.len() - suffix_width, cs.len());
    proof {
        assert(cs@.subrange(0, prefix_width as int) =~= value@.take(prefix_width as int));
        assert(cs@.subrange(cs.len() - suffix_width, cs.len() as int) =~= value@.skip(value@.len() - suffix_width));
    }
    string_from_chars(out.as_slice())
}

/// Appends `n` copies of `c`.
fn push_repeat(out: &mut Vec<char>, c: char, n: usize)
    ensures
        final(out)@ == old(out)@ + repeat(c, n as nat),
{
    let ghost start = out@;
    let mut i: usize = 0;
    while i < n
        invariant
            i <= n,
            out@ == start + repeat(c, i as nat),
        decreases n - i,
    {
        out.push(c);
        i += 1;
        assert(out@ =~= start + repeat(c, i as nat));
    }
}

/// Appends `value` padded to `width`.
fn push_padded(out: &mut Vec<char>, value: &str, width: usize, alignment: Alignment)
    ensures
        final(out)@ == old(out)@ + pad(value@, width as nat, alignment),
{
    let cs = chars_of(value);
    let n = cs.len();
    if n >= width {
        push_str(out, value);
    } else {
        match alignment {
            Alignment::Left => {
                push_str(out, value);
                push_repeat(out, ' ', width - n);
            },
            Alignment::Right => {
                push_repeat(out, ' ', width - n);
                push_str(out, value);
            },
        }
    }
}

fn fit_limit(width: usize, max_width: Option<usize>) -> (r: usize)
    ensures
        r as nat == limit(width as nat, max_width),
{
    match max_width {
        Some(m) => if width < m {
            width
        } else {
            m
        },
        None => width,
    }
}

/// The widths of the columns: each the widest of its header and its shown cells.
pub fn column_widths(columns: &[Column], rows: &Vec<Vec<String>>) -> (widths: Vec<usize>)
    ensures
        widths@.len() == columns@.len(),
        forall|i: int| 0 <= i < columns@.len() ==> widths@[i] as nat == column_width(columns@, rows_view(rows@), i),
{
    let ghost rv = rows_view(rows@);
    let mut widths: Vec<usize> = Vec::new();
    let mut i: usize = 0;
    while i < columns.len()
        invariant
            i <= columns.len(),
            rv == rows_view(rows@),
            widths@.len() == i,
            forall|k: int| 0 <= k < i ==> widths@[k] as nat == column_width(columns@, rv, k),
        decreases columns.len() - i,
    {
        let header_width = chars_of(columns[i].header).len();
        let mut data_width: usize = 0;
        let mut r: usize = 0;
        while r < rows.len()
            invariant
                i < columns.len(),
                r <= rows.len(),
                rv == rows_view(rows@),
                data_width as nat == widest(rv, i as int, columns@[i as int].max_width, r as int),
            decreases rows.len() - r,
        {
            if i < rows[r].len() {
                let w = fit_limit(chars_of(rows[r][i].as_str()).len(), columns[i].max_width);
                if w > data_width {
                    data_width = w;
                }
            }
            proof {
                assert(rv[r as int].len() == rows@[r as int]@.len());
                if (i as int) < rv[r as int].len() {
                    assert(rv[r as int][i as int] == rows@[r as int]@[i as int]@);
                }
            }
            r += 1;
        }
        let width = if header_width > data_width {
            header_width
        } else {
            data_width
        };
        widths.push(width);
        i += 1;
    }
    widths
}

/// Rows of cells as plain values.
pub open spec fn rows_view(rows: Seq<Vec<String>>) -> Seq<Seq<Seq<char>>> {
    rows.map_values(|r: Vec<String>| r@.map_values(|c: String| c@))
}

/// One row: its cells shortened, padded and joined with two spaces.
pub fn format_row(columns: &[Column], widths: &Vec<usize>, values: &Vec<String>) -> (r: String)
    requires
        widths@.len() == columns@.len(),
    ensures
        r@ == row_text(columns@, widths@.map_values(|w: usize| w as nat), values@.map_values(|c: String| c@)),
{
    let ghost wv = widths@.map_values(|w: usize| w as nat);
    let ghost vv = values@.map_values(|c: String| c@);
    let n = if values.len() < columns.len() {
        values.len()
    } else {
        columns.len()
    };
    let ghost items = Seq::new(n as nat, |i: int| cell_text(vv[i], wv[i], columns@[i]));
    let mut out: Vec<char> = Vec::new();
    let mut i: usize = 0;
    while i < n
        invariant
            i <= n <= columns.len(),
            n <= values.len(),
            widths@.len() == columns@.len(),
            wv == widths@.map_values(|w: usize| w as nat),
            vv == values@.map_values(|c: String| c@),
            items == Seq::new(n as nat, |i: int| cell_text(vv[i], wv[i], columns@[i])),
            out@ == join(items.take(i as int), "  "@),
        decreases n - i,
    {
        if i > 0 {
            push_str(&mut out, "  ");
        }
        let c = columns[i];
        let fitted = truncate_middle(values[i].as_str(), fit_limit(widths[i], c.max_width));
        push_padded(&mut out, fitted.as_str(), widths[i], c.alignment);
        proof {
            assert(items.take(i + 1).drop_last() =~= items.take(i as int));
            assert(items.take(i + 1).last() == cell_text(vv[i as int], wv[i as int], columns@[i as int]));
        }
        i += 1;
    }
    assert(items.take(n as int) =~= items);
    string_from_chars(out.as_slice())
}

/// The header row: each header padded to its width, joined with two spaces.
pub fn format_header_row(columns: &[Column], widths: &Vec<usize>) -> (r: String)
    requires
        widths@.len() == columns@.len(),
    ensures
        r@ == header_text(columns@, widths@.map_values(|w: usize| w as nat)),
{
    let ghost wv = widths@.map_values(|w: usize| w as nat);
    let ghost items = Seq::new(columns@.len(), |i: int| pad(columns@[i].header@, wv[i], Alignment::Left));
    let mut out: Vec<char> = Vec::new();
    let mut i: usize = 0;
    while i < columns.len()
        invariant
            i <= columns.len(),
            widths@.len() == columns@.len(),
            wv == widths@.map_values(|w: usize| w as nat),
            items == Seq::new(columns@.len(), |i: int| pad(columns@[i].header@, wv[i], Alignment::Left)),
            out@ == join(items.take(i as int), "  "@),
        decreases columns.len() - i,
    {
        if i > 0 {
            push_str(&mut out, "  ");
        }
        push_padded(&mut out, columns[i].header, widths[i], Alignment::Left);
        proof {
            assert(items.take(i + 1).drop_last() =~= items.take(i as int));
        }
        i += 1;
    }
    assert(items.take(columns.len() as int) =~= items);
    string_from_chars(out.as_slice())
}

/// A header row, dimmed when colours are on.
pub fn decorate_table_header(row: &str, use_color: bool) -> (r: String)
    ensures
        r@ == decorated(row@, use_color),
{
    if use_color {
        crate::text::concat3("\u{1b}[2m", row, "\u{1b}[0m")
    } else {
        row.to_owned()
    }
}

/// A section heading, coloured by tone when colours are on.
pub fn render_section_heading(title: &str, tone: HeadingTone, use_color: bool) -> (r: String)
    ensures
        r@ == heading_text(title@, tone, use_color),
{
    if !use_color {
        return title.to_owned();
    }
    match tone {
        HeadingTone::Info => crate::text::concat3("\u{1b}[1;36m", title, "\u{1b}[0m"),
        HeadingTone::Warning => crate::text::concat3("\u{1b}[1;33m", title, "\u{1b}[0m"),
    }
}

/// Appends a table: header row and rows, each on its own line.
pub fn write_table(out: &mut Vec<char>, columns: &[Column], rows: &Vec<Vec<String>>, use_color: bool)
    ensures
        final(out)@ == old(out)@ + table_text(columns@, rows_view(rows@), use_color),
{
    let ghost start = out@;
    let widths = column_widths(columns, rows);
    let ghost wv = widths@.map_values(|w: usize| w as nat);
    assert(wv =~= widths_of(columns@, rows_view(rows@)));
    let header = format_header_row(columns, &widths);
    let decorated_header = decorate_table_header(header.as_str(), use_color);
    push_str(out, decorated_header.as_str());
    push_str(out, "\n");
    let ghost lines = rows_view(rows@).map_values(|r: Seq<Seq<char>>| row_text(columns@, wv, r));
    let ghost mid = out@;
    let mut i: usize = 0;
    while i < rows.len()
        invariant
            i <= rows.len(),
            widths@.len() == columns@.len(),
            wv == widths@.map_values(|w: usize| w as nat),
            lines == rows_view(rows@).map_values(|r: Seq<Seq<char>>| row_text(columns@, wv, r)),
            out@ == mid + lines_text(lines.take(i as int)),
        decreases rows.len() - i,
    {
        let line = format_row(columns, &widths, &rows[i]);
        push_str(out, line.as_str());
        push_str(out, "\n");
        proof {
            assert(lines.take(i + 1).drop_last() =~= lines.take(i as int));
            assert(lines[i as int] == line@);
            assert(out@ =~= mid + lines_text(lines.take(i + 1)));
        }
        i += 1;
    }
    assert(lines.take(rows.len() as int) =~= lines);
}

// ---------------------------------------------------------------------------
// The scan report table
// ---------------------------------------------------------------------------

pub open spec fn group_columns() -> Seq<Column> {
    seq![
        Column { header: "group", alignment: Alignment::Left, max_width: Some(28usize) },
        Column { header: "files", alignment: Alignment::Right, max_width: None },
        Column { header: "lines", alignment: Alignment::Right, max_width: None },
        Column { header: "code", alignment: Alignment::Right, max_width: None },
        Column { header: "mixed", alignment: Alignment::Right, max_width: None },
        Column { header: "comment", alignment: Alignment::Right, max_width: None },
        Column { header: "doc", alignment: Alignment::Right, max_width: None },
        Column { header: "blank", alignment: Alignment::Right, max_width: None },
        Column { header: "bytes", alignment: Alignment::Right, max_width: None },
        Column { header: "sloc", alignment: Alignment::Right, max_width: None },
    ]
}

pub open spec fn category_columns() -> Seq<Column> {
    seq![
        Column { header: "category", alignment: Alignment::Left, max_width: Some(28usize) },
        Column { header: "files", alignment: Alignment::Right, max_width: None },
        Column { header: "lines", alignment: Alignment::Right, max_width: None },
        Column { header: "sloc", alignment: Alignment::Right, max_width: None },
    ]
}

pub open spec fn top_file_columns() -> Seq<Column> {
    seq![
        Column { header: "language", alignment: Alignment::Left, max_width: None },
        Column { header: "category", alignment: Alignment::Left, max_width: None },
        Column { header: "lines", alignment: Alignment::Right, max_width: None },
        Column { header: "code", alignment: Alignment::Right, max_width: None },
        Column { header: "mixed", alignment: Alignment::Right, max_width: None },
        Column { header: "comment", alignment: Alignment::Right, max_width: None },
        Column { header: "doc", alignment: Alignment::Right, max_width: None },
        Column { header: "blank", alignment: Alignment::Right, max_width: None },
        Column { header: "bytes", alignment: Alignment::Right, max_width: None },
        Column { header: "sloc", alignment: Alignment::Right, max_width: None },
        Column { header: "path", alignment: Alignment::Left, max_width: None },
    ]
}

pub open spec fn top_dir_columns() -> Seq<Column> {
    seq![
        Column { header: "files", alignment: Alignment::Right, max_width: None },
        Column { header: "lines", alignment: Alignment::Right, max_width: None },
        Column { header: "code", alignment: Alignment::Right, max_width: None },
        Column { header: "mixed", alignment: Alignment::Right, max_width: None },
        Column { header: "comment", alignment: Alignment::Right, max_width: None },
        Column { header: "doc", alignment: Alignment::Right, max_width: None },
        Column { header: "blank", alignment: Alignment::Right, max_width: None },
        Column { header: "bytes", alignment: Alignment::Right, max_width: None },
        Column { header: "sloc", alignment: Alignment::Right, max_width: None },
        Column { header: "group", alignment: Alignment::Left, max_width: None },
    ]
}

fn group_columns_exec() -> (r: [Column; 10])
    ensures
        r@ == group_columns(),
{
    let r = [
        Column::left("group", Some(28)),
        Column::right("files"),
        Column::right("lines"),
        Column::right("code"),
        Column::right("mixed"),
        Column::right("comment"),
        Column::right("doc"),
        Column::right("blank"),
        Column::right("bytes"),
        Column::right("sloc"),
    ];
    assert(r@ =~= group_columns());
    r
}

fn category_columns_exec() -> (r: [Column; 4])
    ensures
        r@ == category_columns(),
{
    let r = [
        Column::left("category", Some(28)),
        Column::right("files"),
        Column::right("lines"),
        Column::right("sloc"),
    ];
    assert(r@ =~= category_columns());
    r
}

fn top_file_columns_exec() -> (r: [Column; 11])
    ensures
        r@ == top_file_columns(),
{
    let r = [
        Column::left("language", None),
        Column::left("category", None),
        Column::right("lines"),
        Column::right("code"),
        Column::right("mixed"),
        Column::right("comment"),
        Column::right("doc"),
        Column::right("blank"),
        Column::right("bytes"),
        Column::right("sloc"),
        Column::left("path", None),
    ];
    assert(r@ =~= top_file_columns());
    r
}

fn top_dir_columns_exec() -> (r: [Column; 10])
    ensures
        r@ == top_dir_columns(),
{
    let r = [
        Column::right("files"),
        Column::right("lines"),
        Column::right("code"),
        Column::right("mixed"),
        Column::right("comment"),
        Column::right("doc"),
        Column::right("blank"),
        Column::right("bytes"),
        Column::right("sloc"),
        Column::left("group", None),
    ];
    assert(r@ =~= top_dir_columns());
    r
}

/// The cells of a summary row under a group name.
pub open spec fn summary_cells(key: Seq<char>, s: MetricsSummary) -> Seq<Seq<char>> {
    seq![
        key,
        decimal(s.files as nat),
        decimal(s.lines as nat),
        decimal(s.code as nat),
        decimal(s.mixed as nat),
        decimal(s.comment as nat),
        decimal(s.doc as nat),
        decimal(s.blank as nat),
        decimal(s.bytes as nat),
        decimal(s.sloc as nat),
    ]
}

pub open spec fn group_cells(g: GroupSummary) -> Seq<Seq<char>> {
    seq![
        g.key@,
        decimal(g.files as nat),
        decimal(g.lines as nat),
        decimal(g.code as nat),
        decimal(g.mixed as nat),
        decimal(g.comment as nat),
        decimal(g.doc as nat),
        decimal(g.blank as nat),
        decimal(g.bytes as nat),
        decimal(g.sloc as nat),
    ]
}

pub open spec fn category_cells(g: GroupSummary) -> Seq<Seq<char>> {
    seq![g.key@, decimal(g.files as nat), decimal(g.lines as nat), decimal(g.sloc as nat)]
}

pub open spec fn file_cells(e: TopFileEntry) -> Seq<Seq<char>> {
    seq![
        language_name(e.language),
        category_name(e.category),
        decimal(e.lines as nat),
        decimal(e.code as nat),
        decimal(e.mixed as nat),
        decimal(e.comment as nat),
        decimal(e.doc as nat),
        decimal(e.blank as nat),
        decimal(e.bytes as nat),
        decimal(e.sloc as nat),
        e.path@,
    ]
}

pub open spec fn dir_cells(g: GroupSummary) -> Seq<Seq<char>> {
    seq![
        decimal(g.files as nat),
        decimal(g.lines as nat),
        decimal(g.code as nat),
        decimal(g.mixed as nat),
        decimal(g.comment as nat),
        decimal(g.doc as nat),
        decimal(g.blank as nat),
        decimal(g.bytes as nat),
        decimal(g.sloc as nat),
        g.key@,
    ]
}

/// A blank line, a heading, and a table, or nothing for no rows.
pub open spec fn section(title: Seq<char>, columns: Seq<Column>, rows: Seq<Seq<Seq<char>>>, use_color: bool) -> Seq<char> {
    if rows.len() == 0 {
        Seq::empty()
    } else {
        "\n"@ + heading_text(title, HeadingTone::Info, use_color) + "\n"@ + table_text(columns, rows, use_color)
    }
}

/// The group sections, one per grouping, in order.
pub open spec fn grouping_sections(
    groupings: Seq<ScanGroupBy>,
    parts: Seq<Seq<GroupSummary>>,
    use_color: bool,
    n: int,
) -> Seq<char>
    decreases n,
{
    if n <= 0 {
        Seq::empty()
    } else {
        grouping_sections(groupings, parts, use_color, n - 1) + section(
            "Groups by "@ + group_by_name(groupings[n - 1]),
            group_columns(),
            parts[n - 1].map_values(|g: GroupSummary| group_cells(g)),
            use_color,
        )
    }
}

/// The warnings section, or nothing.
pub open spec fn warnings_section(ws: Seq<crate::types::AnalysisWarning>, use_color: bool) -> Seq<char> {
    if ws.len() == 0 {
        Seq::empty()
    } else {
        "\n"@ + heading_text("Warnings"@, HeadingTone::Warning, use_color) + "\n"@ + lines_text(
            ws.map_values(|w: crate::types::AnalysisWarning| "- "@ + warning_text(w)),
        )
    }
}

/// The whole table report before trailing whitespace is trimmed, given the
/// groupings, largest files and largest directories it shows.
pub open spec fn report_text(
    report: ScanReport,
    options: ScanRenderOptions,
    use_color: bool,
    categories: Seq<GroupSummary>,
    parts: Seq<Seq<GroupSummary>>,
    files: Seq<TopFileEntry>,
    dirs: Seq<GroupSummary>,
) -> Seq<char> {
    summary_section(report, use_color) + section(
        "Category totals"@,
        category_columns(),
        categories.map_values(|g: GroupSummary| category_cells(g)),
        use_color,
    ) + grouping_sections(options.group_by@, parts, use_color, options.group_by@.len() as int)
        + top_files_section(options, files, use_color) + top_dirs_section(options, dirs, use_color)
        + warnings_section(report.warnings@, use_color)
}

fn summary_row(key: &str, s: &MetricsSummary) -> (r: Vec<String>)
    ensures
        r@.map_values(|c: String| c@) == summary_cells(key@, *s),
{
    let mut r: Vec<String> = Vec::new();
    r.push(key.to_owned());
    r.push(decimal_string(s.files as u64));
    r.push(decimal_string(s.lines));
    r.push(decimal_string(s.code));
    r.push(decimal_string(s.mixed));
    r.push(decimal_string(s.comment));
    r.push(decimal_string(s.doc));
    r.push(decimal_string(s.blank));
    r.push(decimal_string(s.bytes));
    r.push(decimal_string(s.sloc));
    assert(r@.map_values(|c: String| c@) =~= summary_cells(key@, *s));
    r
}

fn group_row(g: &GroupSummary) -> (r: Vec<String>)
    ensures
        r@.map_values(|c: String| c@) == group_cells(*g),
{
    let mut r: Vec<String> = Vec::new();
    r.push(g.key.clone());
    r.push(decimal_string(g.files as u64));
    r.push(decimal_string(g.lines));
    r.push(decimal_string(g.code));
    r.push(decimal_string(g.mixed));
    r.push(decimal_string(g.comment));
    r.push(decimal_string(g.doc));
    r.push(decimal_string(g.blank));
    r.push(decimal_string(g.bytes));
    r.push(decimal_string(g.sloc));
    assert(r@.map_values(|c: String| c@) =~= group_cells(*g));
    r
}

fn category_row(g: &GroupSummary) -> (r: Vec<String>)
    ensures
        r@.map_values(|c: String| c@) == category_cells(*g),
{
    let mut r: Vec<String> = Vec::new();
    r.push(g.key.clone());
    r.push(decimal_string(g.files as u64));
    r.push(decimal_string(g.lines));
    r.push(decimal_string(g.sloc));
    assert(r@.map_values(|c: String| c@) =~= category_cells(*g));
    r
}

fn file_row(e: &TopFileEntry) -> (r: Vec<String>)
    ensures
        r@.map_values(|c: String| c@) == file_cells(*e),
{
    let mut r: Vec<String> = Vec::new();
    r.push(e.language.as_str().to_owned());
    r.push(e.category.as_str().to_owned());
    r.push(decimal_string(e.lines));
    r.push(decimal_string(e.code));
    r.push(decimal_string(e.mixed));
    r.push(decimal_string(e.comment));
    r.push(decimal_string(e.doc));
    r.push(decimal_string(e.blank));
    r.push(decimal_string(e.bytes));
    r.push(decimal_string(e.sloc));
    r.push(e.path.clone());
    assert(r@.map_values(|c: String| c@) =~= file_cells(*e));
    r
}

fn dir_row(g: &GroupSummary) -> (r: Vec<String>)
    ensures
        r@.map_values(|c: String| c@) == dir_cells(*g),
{
    let mut r: Vec<String> = Vec::new();
    r.push(decimal_string(g.files as u64));
    r.push(decimal_string(g.lines));
    r.push(decimal_string(g.code));
    r.push(decimal_string(g.mixed));
    r.push(decimal_string(g.comment));
    r.push(decimal_string(g.doc));
    r.push(decimal_string(g.blank));
    r.push(decimal_string(g.bytes));
    r.push(decimal_string(g.sloc));
    r.push(g.key.clone());
    assert(r@.map_values(|c: String| c@) =~= dir_cells(*g));
    r
}

/// The rows of groups: summary cells, or category cells.
fn group_rows(gs: &Vec<GroupSummary>, compact: bool) -> (r: Vec<Vec<String>>)
    ensures
        rows_view(r@) == if compact {
            gs@.map_values(|g: GroupSummary| category_cells(g))
        } else {
            gs@.map_values(|g: GroupSummary| group_cells(g))
        },
{
    let ghost target = if compact {
        gs@.map_values(|g: GroupSummary| category_cells(g))
    } else {
        gs@.map_values(|g: GroupSummary| group_cells(g))
    };
    let mut rows: Vec<Vec<String>> = Vec::new();
    let mut i: usize = 0;
    while i < gs.len()
        invariant
            i <= gs.len(),
            target == if compact {
                gs@.map_values(|g: GroupSummary| category_cells(g))
            } else {
                gs@.map_values(|g: GroupSummary| group_cells(g))
            },
            rows_view(rows@) == target.take(i as int),
        decreases gs.len() - i,
    {
        let row = if compact {
            category_row(&gs[i])
        } else {
            group_row(&gs[i])
        };
        let ghost before = rows@;
        rows.push(row);
        proof {
            assert(rows_view(rows@) =~= rows_view(before).push(row@.map_values(|c: String| c@)));
            assert(target.take(i + 1) =~= target.take(i as int).push(target[i as int]));
        }
        i += 1;
    }
    assert(target.take(gs.len() as int) =~= target);
    rows
}

fn file_rows(es: &Vec<TopFileEntry>) -> (r: Vec<Vec<String>>)
    ensures
        rows_view(r@) == es@.map_values(|e: TopFileEntry| file_cells(e)),
{
    let ghost target = es@.map_values(|e: TopFileEntry| file_cells(e));
    let mut rows: Vec<Vec<String>> = Vec::new();
    let mut i: usize = 0;
    while i < es.len()
        invariant
            i <= es.len(),
            target == es@.map_values(|e: TopFileEntry| file_cells(e)),
            rows_view(rows@) == target.take(i as int),
        decreases es.len() - i,
    {
        let row = file_row(&es[i]);
        let ghost before = rows@;
        rows.push(row);
        proof {
            assert(rows_view(rows@) =~= rows_view(before).push(row@.map_values(|c: String| c@)));
            assert(target.take(i + 1) =~= target.take(i as int).push(target[i as int]));
        }
        i += 1;
    }
    assert(target.take(es.len() as int) =~= target);
    rows
}

fn dir_rows(gs: &Vec<GroupSummary>) -> (r: Vec<Vec<String>>)
    ensures
        rows_view(r@) == gs@.map_values(|g: GroupSummary| dir_cells(g)),
{
    let ghost target = gs@.map_values(|g: GroupSummary| dir_cells(g));
    let mut rows: Vec<Vec<String>> = Vec::new();
    let mut i: usize = 0;
    while i < gs.len()
        invariant
            i <= gs.len(),
            target == gs@.map_values(|g: GroupSummary| dir_cells(g)),
            rows_view(rows@) == target.take(i as int),
        decreases gs.len() - i,
    {
        let row = dir_row(&gs[i]);
        let ghost before = rows@;
        rows.push(row);
        proof {
            assert(rows_view(rows@) =~= rows_view(before).push(row@.map_values(|c: String| c@)));
            assert(target.take(i + 1) =~= target.take(i as int).push(target[i as int]));
        }
        i += 1;
    }
    assert(target.take(gs.len() as int) =~= target);
    rows
}

/// Appends a section: a blank line, its heading and its table; nothing without rows.
fn write_section(out: &mut Vec<char>, title: &str, columns: &[Column], rows: &Vec<Vec<String>>, use_color: bool)
    ensures
        final(out)@ == old(out)@ + section(title@, columns@, rows_view(rows@), use_color),
{
    if rows.len() == 0 {
        assert(old(out)@ + section(title@, columns@, rows_view(rows@), use_color) =~= old(out)@);
        return;
    }
    let ghost start = out@;
    push_str(out, "\n");
    let heading = render_section_heading(title, HeadingTone::Info, use_color);
    push_str(out, heading.as_str());
    push_str(out, "\n");
    write_table(out, columns, rows, use_color);
    assert(out@ =~= start + section(title@, columns@, rows_view(rows@), use_color));
}

/// The groups, largest files and largest directories a table report shows.
pub open spec fn render_pieces(
    report: ScanReport,
    options: ScanRenderOptions,
    pieces: (Seq<GroupSummary>, Seq<Seq<GroupSummary>>, Seq<TopFileEntry>, Seq<GroupSummary>),
) -> bool {
    &&& groups_of(pieces.0, report.files@, ScanGroupBy::Category)
    &&& pieces.1.len() == options.group_by@.len()
    &&& forall|i: int| 0 <= i < pieces.1.len() ==> groups_of(#[trigger] pieces.1[i], report.files@, options.group_by@[i])
    &&& options.top_files matches Some(l) ==> top_files_of(pieces.2, report.files@, l)
    &&& options.top_dirs matches Some(l) ==> exists|dirs: Seq<GroupSummary>|
        groups_of(dirs, report.files@, ScanGroupBy::Dir) && pieces.3 == #[trigger] select_dirs(dirs, l, dirs.len() as int)
}

/// Appends the section for each requested grouping; gives the groups shown.
fn write_groupings(out: &mut Vec<char>, report: &ScanReport, groupings: &Vec<ScanGroupBy>, use_color: bool) -> (parts: Ghost<Seq<Seq<GroupSummary>>>)
    requires
        totals_fit(totals_of(report.files@)),
    ensures
        parts@.len() == groupings@.len(),
        forall|k: int| 0 <= k < parts@.len() ==> groups_of(#[trigger] parts@[k], report.files@, groupings@[k]),
        final(out)@ == old(out)@ + grouping_sections(groupings@, parts@, use_color, groupings@.len() as int),
{
    let ghost start = out@;
    let group_cols = group_columns_exec();
    let ghost mut parts: Seq<Seq<GroupSummary>> = Seq::empty();
    let mut i: usize = 0;
    while i < groupings.len()
        invariant
            i <= groupings.len(),
            totals_fit(totals_of(report.files@)),
            group_cols@ == group_columns(),
            parts.len() == i,
            forall|k: int| 0 <= k < i ==> groups_of(#[trigger] parts[k], report.files@, groupings@[k]),
            out@ == start + grouping_sections(groupings@, parts, use_color, i as int),
        decreases groupings.len() - i,
    {
        let by = groupings[i];
        let gs = groups_for(report, by);
        let rows = group_rows(&gs, false);
        let title = crate::text::concat2("Groups by ", by.as_str());
        let ghost before_parts = parts;
        write_section(out, title.as_str(), &group_cols, &rows, use_color);
        proof {
            parts = parts.push(gs@);
            lemma_grouping_sections_stable(groupings@, before_parts, gs@, use_color, i as int);
            assert(parts[i as int] == gs@);
            assert(out@ =~= start + grouping_sections(groupings@, parts, use_color, i + 1));
        }
        i += 1;
    }
    Ghost(parts)
}

/// Appends the warnings section.
fn write_warnings(out: &mut Vec<char>, warnings: &Vec<crate::types::AnalysisWarning>, use_color: bool)
    ensures
        final(out)@ == old(out)@ + warnings_section(warnings@, use_color),
{
    if warnings.len() == 0 {
        assert(old(out)@ + warnings_section(warnings@, use_color) =~= old(out)@);
        return;
    }
    let ghost start = out@;
    push_str(out, "\n");
    let heading = render_section_heading("Warnings", HeadingTone::Warning, use_color);
    push_str(out, heading.as_str());
    push_str(out, "\n");
    let ghost mid = out@;
    let ghost lines = warnings@.map_values(|w: crate::types::AnalysisWarning| "- "@ + warning_text(w));
    let mut k: usize = 0;
    while k < warnings.len()
        invariant
            k <= warnings.len(),
            lines == warnings@.map_values(|w: crate::types::AnalysisWarning| "- "@ + warning_text(w)),
            out@ == mid + lines_text(lines.take(k as int)),
        decreases warnings.len() - k,
    {
        push_str(out, "- ");
        let text = format_warning(&warnings[k]);
        push_str(out, text.as_str());
        push_str(out, "\n");
        proof {
            assert(lines.take(k + 1).drop_last() =~= lines.take(k as int));
            assert(out@ =~= mid + lines_text(lines.take(k + 1)));
        }
        k += 1;
    }
    assert(lines.take(warnings.len() as int) =~= lines);
    assert(out@ =~= start + warnings_section(warnings@, use_color));
}

/// The summary section: heading and one-row table.
pub open spec fn summary_section(report: ScanReport, use_color: bool) -> Seq<char> {
    heading_text("Summary"@, HeadingTone::Info, use_color) + "\n"@ + table_text(
        group_columns(),
        seq![summary_cells("summary"@, report.summary)],
        use_color,
    )
}

fn write_summary(out: &mut Vec<char>, report: &ScanReport, use_color: bool)
    ensures
        final(out)@ == old(out)@ + summary_section(*report, use_color),
{
    let ghost start = out@;
    let heading = render_section_heading("Summary", HeadingTone::Info, use_color);
    push_str(out, heading.as_str());
    push_str(out, "\n");
    let mut summary_rows: Vec<Vec<String>> = Vec::new();
    summary_rows.push(summary_row("summary", &report.summary));
    assert(rows_view(summary_rows@) =~= seq![summary_cells("summary"@, report.summary)]);
    let group_cols = group_columns_exec();
    write_table(out, &group_cols, &summary_rows, use_color);
    assert(out@ =~= start + summary_section(*report, use_color));
}

/// The top-files section when asked for.
pub open spec fn top_files_section(options: ScanRenderOptions, files: Seq<TopFileEntry>, use_color: bool) -> Seq<char> {
    if options.top_files is Some {
        section("Top files"@, top_file_columns(), files.map_values(|e: TopFileEntry| file_cells(e)), use_color)
    } else {
        Seq::empty()
    }
}

/// The top-directories section when asked for.
pub open spec fn top_dirs_section(options: ScanRenderOptions, dirs: Seq<GroupSummary>, use_color: bool) -> Seq<char> {
    if options.top_dirs is Some {
        section("Top dirs"@, top_dir_columns(), dirs.map_values(|g: GroupSummary| dir_cells(g)), use_color)
    } else {
        Seq::empty()
    }
}

fn write_top_files(out: &mut Vec<char>, report: &ScanReport, options: &ScanRenderOptions, use_color: bool) -> (files: Vec<TopFileEntry>)
    ensures
        options.top_files matches Some(l) ==> top_files_of(files@, report.files@, l),
        final(out)@ == old(out)@ + top_files_section(*options, files@, use_color),
{
    match options.top_files {
        Some(limit) => {
            let files = top_files(report, limit);
            let rows = file_rows(&files);
            let cols = top_file_columns_exec();
            write_section(out, "Top files", &cols, &rows, use_color);
            files
        },
        None => {
            assert(old(out)@ + top_files_section(*options, Seq::empty(), use_color) =~= old(out)@);
            Vec::new()
        },
    }
}

fn write_top_dirs(out: &mut Vec<char>, report: &ScanReport, options: &ScanRenderOptions, use_color: bool) -> (dirs: Vec<GroupSummary>)
    requires
        totals_fit(totals_of(report.files@)),
    ensures
        options.top_dirs matches Some(l) ==> exists|all: Seq<GroupSummary>|
            groups_of(all, report.files@, ScanGroupBy::Dir) && dirs@ == #[trigger] select_dirs(all, l, all.len() as int),
        final(out)@ == old(out)@ + top_dirs_section(*options, dirs@, use_color),
{
    match options.top_dirs {
        Some(limit) => {
            let dirs = top_dirs(report, limit);
            let rows = dir_rows(&dirs);
            let cols = top_dir_columns_exec();
            write_section(out, "Top dirs", &cols, &rows, use_color);
            dirs
        },
        None => {
            assert(old(out)@ + top_dirs_section(*options, Seq::empty(), use_color) =~= old(out)@);
            Vec::new()
        },
    }
}

/// Renders a scan report as text tables: the summary, category totals, each
/// requested grouping, the largest files and directories, and the warnings.
pub fn render(report: &ScanReport, options: &ScanRenderOptions, use_color: bool) -> (r: String)
    requires
        totals_fit(totals_of(report.files@)),
    ensures
        exists|pieces: (Seq<GroupSummary>, Seq<Seq<GroupSummary>>, Seq<TopFileEntry>, Seq<GroupSummary>)|
            #[trigger] render_pieces(*report, *options, pieces) && r@ == trim_end(
                report_text(*report, *options, use_color, pieces.0, pieces.1, pieces.2, pieces.3),
            ),
        r@.len() == 0 || !is_ws(r@.last()),
        exists|pieces: (Seq<GroupSummary>, Seq<Seq<GroupSummary>>, Seq<TopFileEntry>, Seq<GroupSummary>)|
            #[trigger] render_pieces(*report, *options, pieces) && r@ == trim_end(
                summary_section(*report, use_color) + blocks_text(report_blocks(*report, *options, use_color, pieces), use_color),
            ) && seq!["Summary"@] + block_titles(report_blocks(*report, *options, use_color, pieces)) == shown_titles(
                *report,
                *options,
            ),
{
    let mut out: Vec<char> = Vec::new();
    write_summary(&mut out, report, use_color);
    let ghost s1 = out@;
    let categories = groups_for(report, ScanGroupBy::Category);
    let category_rows = group_rows(&categories, true);
    let category_cols = category_columns_exec();
    write_section(&mut out, "Category totals", &category_cols, &category_rows, use_color);
    let ghost s2 = out@;
    let parts = write_groupings(&mut out, report, &options.group_by, use_color);
    let ghost s3 = out@;
    let files = write_top_files(&mut out, report, options, use_color);
    let ghost s4 = out@;
    let dirs = write_top_dirs(&mut out, report, options, use_color);
    let ghost s5 = out@;
    write_warnings(&mut out, &report.warnings, use_color);
    let ghost pieces = (categories@, parts@, files@, dirs@);
    proof {
        assert(out@ =~= report_text(*report, *options, use_color, pieces.0, pieces.1, pieces.2, pieces.3));
        assert(render_pieces(*report, *options, pieces));
        lemma_trim_end_no_trailing_ws(out@);
        lemma_report_blocks(*report, *options, use_color, pieces);
    }
    trimmed_end(&out)
}

/// Text trimmed at the end ends in no whitespace.
pub proof fn lemma_trim_end_no_trailing_ws(s: Seq<char>)
    ensures
        trim_end(s).len() == 0 || !is_ws(trim_end(s).last()),
    decreases s.len(),
{
    if s.len() > 0 && is_ws(s.last()) {
        lemma_trim_end_no_trailing_ws(s.drop_last());
    }
}

proof fn lemma_groups_present(gs: Seq<GroupSummary>, files: Seq<FileMetrics>, by: ScanGroupBy)
    requires
        groups_of(gs, files, by),
    ensures
        (gs.len() > 0) == (files.len() > 0),
{
    if files.len() > 0 {
        let f0 = files[0];
        let i = choose|i: int| 0 <= i < gs.len() && (#[trigger] gs[i]).key@ == group_key(f0, by);
        assert(0 <= i < gs.len());
    } else if gs.len() > 0 {
        assert(of_key(files, by, gs[0].key@).len() > 0);
        assert(of_key(files, by, gs[0].key@) == Seq::<FileMetrics>::empty());
    }
}

proof fn lemma_select_dirs_first(dirs: Seq<GroupSummary>, limit: usize, n: int)
    requires
        1 <= n <= dirs.len(),
        limit > 0,
    ensures
        select_dirs(dirs, limit, n).len() > 0,
    decreases n,
{
    if n > 1 {
        lemma_select_dirs_first(dirs, limit, n - 1);
    } else {
        assert(select_dirs(dirs, limit, 0) == Seq::<GroupSummary>::empty());
    }
}

/// The sections of a table report, in the order `report_text` joins them: the
/// summary always; category totals, and then one section per requested grouping in
/// the requested order, when the report has files; the largest files and the
/// largest directories when asked for with a positive limit and the report has
/// files; the warnings when there are any. A section that is shown starts on a new
/// line with its heading.
pub proof fn lemma_table_sections(
    report: ScanReport,
    options: ScanRenderOptions,
    use_color: bool,
    pieces: (Seq<GroupSummary>, Seq<Seq<GroupSummary>>, Seq<TopFileEntry>, Seq<GroupSummary>),
)
    requires
        render_pieces(report, options, pieces),
    ensures
        summary_section(report, use_color) == heading_text("Summary"@, HeadingTone::Info, use_color) + "\n"@
            + table_text(group_columns(), seq![summary_cells("summary"@, report.summary)], use_color),
        (section(
            "Category totals"@,
            category_columns(),
            pieces.0.map_values(|g: GroupSummary| category_cells(g)),
            use_color,
        ).len() > 0) == (report.files@.len() > 0),
        pieces.1.len() == options.group_by@.len(),
        forall|i: int|
            0 <= i < options.group_by@.len() ==> (section(
                "Groups by "@ + group_by_name(#[trigger] options.group_by@[i]),
                group_columns(),
                pieces.1[i].map_values(|g: GroupSummary| group_cells(g)),
                use_color,
            ).len() > 0) == (report.files@.len() > 0),
        (top_files_section(options, pieces.2, use_color).len() > 0) == (options.top_files matches Some(n) && n > 0
            && report.files@.len() > 0),
        (top_dirs_section(options, pieces.3, use_color).len() > 0) == (options.top_dirs matches Some(n) && n > 0
            && report.files@.len() > 0),
        (warnings_section(report.warnings@, use_color).len() > 0) == (report.warnings@.len() > 0),
        forall|title: Seq<char>, columns: Seq<Column>, rows: Seq<Seq<Seq<char>>>|
            #[trigger] section(title, columns, rows, use_color).len() > 0 ==> section(title, columns, rows, use_color)
                == "\n"@ + heading_text(title, HeadingTone::Info, use_color) + "\n"@ + table_text(columns, rows, use_color),
{
    reveal_strlit("\n");
    let files = report.files@;
    lemma_groups_present(pieces.0, files, ScanGroupBy::Category);
    assert forall|i: int| 0 <= i < options.group_by@.len() implies (section(
        "Groups by "@ + group_by_name(#[trigger] options.group_by@[i]),
        group_columns(),
        pieces.1[i].map_values(|g: GroupSummary| group_cells(g)),
        use_color,
    ).len() > 0) == (files.len() > 0) by {
        lemma_groups_present(pieces.1[i], files, options.group_by@[i]);
    }
    if options.top_files is Some {
        let l = options.top_files->0;
        let sorted = choose|sorted: Seq<TopFileEntry>|
            in_order(sorted, file_order()) && #[trigger] sorted.to_multiset() == files.map_values(
                |f: FileMetrics| spec_entry(f),
            ).to_multiset() && pieces.2 == if sorted.len() > l {
                sorted.take(l as int)
            } else {
                sorted
            };
        sorted.to_multiset_ensures();
        files.map_values(|f: FileMetrics| spec_entry(f)).to_multiset_ensures();
        assert(sorted.len() == files.len());
    }
    if options.top_dirs is Some {
        let l = options.top_dirs->0;
        let dirs = choose|dirs: Seq<GroupSummary>|
            groups_of(dirs, files, ScanGroupBy::Dir) && pieces.3 == #[trigger] select_dirs(dirs, l, dirs.len() as int);
        lemma_groups_present(dirs, files, ScanGroupBy::Dir);
        crate::report::top::lemma_selected_dirs_disjoint(dirs, l, dirs.len() as int);
        if l > 0 && files.len() > 0 {
            lemma_select_dirs_first(dirs, l, dirs.len() as int);
        }
        if dirs.len() == 0 {
            assert(select_dirs(dirs, l, 0) == Seq::<GroupSummary>::empty());
        }
    }
}

proof fn lemma_grouping_sections_stable(
    groupings: Seq<ScanGroupBy>,
    parts: Seq<Seq<GroupSummary>>,
    extra: Seq<GroupSummary>,
    use_color: bool,
    n: int,
)
    requires
        0 <= n <= parts.len(),
    ensures
        grouping_sections(groupings, parts.push(extra), use_color, n) == grouping_sections(groupings, parts, use_color, n),
    decreases n,
{
    if n > 0 {
        lemma_grouping_sections_stable(groupings, parts, extra, use_color, n - 1);
        assert(parts.push(extra)[n - 1] == parts[n - 1]);
    }
}

/// One section after the summary, from its title, heading tone and body: a blank
/// line's break, the heading, and the body on the lines after it.
pub open spec fn block_text(b: (Seq<char>, HeadingTone, Seq<char>), use_color: bool) -> Seq<char> {
    "\n"@ + heading_text(b.0, b.1, use_color) + "\n"@ + b.2
}

/// Sections one after another.
pub open spec fn blocks_text(bs: Seq<(Seq<char>, HeadingTone, Seq<char>)>, use_color: bool) -> Seq<char>
    decreases bs.len(),
{
    if bs.len() == 0 {
        Seq::empty()
    } else {
        blocks_text(bs.drop_last(), use_color) + block_text(bs.last(), use_color)
    }
}

/// The titles of the sections.
pub open spec fn block_titles(bs: Seq<(Seq<char>, HeadingTone, Seq<char>)>) -> Seq<Seq<char>> {
    bs.map_values(|b: (Seq<char>, HeadingTone, Seq<char>)| b.0)
}

/// The section headings of a table report, in order: the summary; category totals
/// and one heading per requested grouping when there are files; the largest files
/// and directories when asked for with a positive limit and there are files; the
/// warnings when there are any.
pub open spec fn shown_titles(report: ScanReport, options: ScanRenderOptions) -> Seq<Seq<char>> {
    let has_files = report.files@.len() > 0;
    seq!["Summary"@] + (if has_files {
        seq!["Category totals"@] + options.group_by@.map_values(|g: ScanGroupBy| "Groups by "@ + group_by_name(g))
    } else {
        Seq::empty()
    }) + (if options.top_files matches Some(n) && n > 0 && has_files {
        seq!["Top files"@]
    } else {
        Seq::empty()
    }) + (if options.top_dirs matches Some(n) && n > 0 && has_files {
        seq!["Top dirs"@]
    } else {
        Seq::empty()
    }) + (if report.warnings@.len() > 0 {
        seq!["Warnings"@]
    } else {
        Seq::empty()
    })
}

proof fn lemma_blocks_concat(
    a: Seq<(Seq<char>, HeadingTone, Seq<char>)>,
    b: Seq<(Seq<char>, HeadingTone, Seq<char>)>,
    use_color: bool,
)
    ensures
        blocks_text(a + b, use_color) == blocks_text(a, use_color) + blocks_text(b, use_color),
    decreases b.len(),
{
    if b.len() == 0 {
        assert(a + b =~= a);
        assert(blocks_text(a, use_color) + Seq::<char>::empty() =~= blocks_text(a, use_color));
    } else {
        lemma_blocks_concat(a, b.drop_last(), use_color);
        assert((a + b).drop_last() =~= a + b.drop_last());
        assert((a + b).last() == b.last());
        assert(blocks_text(a + b, use_color) =~= blocks_text(a, use_color) + blocks_text(b, use_color));
    }
}

/// The section, or none when it has no rows.
pub open spec fn opt_block(shown: bool, b: (Seq<char>, HeadingTone, Seq<char>)) -> Seq<
    (Seq<char>, HeadingTone, Seq<char>),
> {
    if shown {
        seq![b]
    } else {
        Seq::empty()
    }
}

proof fn lemma_opt_block(shown: bool, b: (Seq<char>, HeadingTone, Seq<char>), use_color: bool)
    ensures
        blocks_text(opt_block(shown, b), use_color) == if shown {
            block_text(b, use_color)
        } else {
            Seq::<char>::empty()
        },
{
    let e = Seq::<(Seq<char>, HeadingTone, Seq<char>)>::empty();
    assert(blocks_text(e, use_color) == Seq::<char>::empty());
    if shown {
        assert(seq![b].drop_last() =~= e);
        assert(seq![b].last() == b);
        assert(Seq::<char>::empty() + block_text(b, use_color) =~= block_text(b, use_color));
    }
}

/// The grouping sections as sections with titles.
pub open spec fn group_blocks(
    groupings: Seq<ScanGroupBy>,
    parts: Seq<Seq<GroupSummary>>,
    use_color: bool,
    n: int,
) -> Seq<(Seq<char>, HeadingTone, Seq<char>)> {
    Seq::new(
        n as nat,
        |i: int|
            (
                "Groups by "@ + group_by_name(groupings[i]),
                HeadingTone::Info,
                table_text(group_columns(), parts[i].map_values(|g: GroupSummary| group_cells(g)), use_color),
            ),
    )
}

proof fn lemma_group_blocks(
    groupings: Seq<ScanGroupBy>,
    parts: Seq<Seq<GroupSummary>>,
    use_color: bool,
    n: int,
    shown: bool,
)
    requires
        0 <= n <= parts.len(),
        forall|i: int| 0 <= i < n ==> ((#[trigger] parts[i]).len() > 0) == shown,
    ensures
        grouping_sections(groupings, parts, use_color, n) == if shown {
            blocks_text(group_blocks(groupings, parts, use_color, n), use_color)
        } else {
            Seq::<char>::empty()
        },
    decreases n,
{
    reveal_strlit("\n");
    if n > 0 {
        lemma_group_blocks(groupings, parts, use_color, n - 1, shown);
        let sec = section(
            "Groups by "@ + group_by_name(groupings[n - 1]),
            group_columns(),
            parts[n - 1].map_values(|g: GroupSummary| group_cells(g)),
            use_color,
        );
        if shown {
            let bs = group_blocks(groupings, parts, use_color, n);
            assert(bs.drop_last() =~= group_blocks(groupings, parts, use_color, n - 1));
            assert(sec == block_text(bs.last(), use_color));
        } else {
            assert(parts[n - 1].map_values(|g: GroupSummary| group_cells(g)).len() == 0);
            assert(sec == Seq::<char>::empty());
            assert(grouping_sections(groupings, parts, use_color, n - 1) + sec =~= Seq::<char>::empty());
        }
    } else if shown {
        assert(group_blocks(groupings, parts, use_color, 0) =~= Seq::<(Seq<char>, HeadingTone, Seq<char>)>::empty());
    }
}

/// The category section as a section with its title.
pub open spec fn category_block(pieces: Seq<GroupSummary>, use_color: bool) -> (Seq<char>, HeadingTone, Seq<char>) {
    (
        "Category totals"@,
        HeadingTone::Info,
        table_text(category_columns(), pieces.map_values(|x: GroupSummary| category_cells(x)), use_color),
    )
}

/// The largest-files section as a section with its title.
pub open spec fn top_files_block(files: Seq<TopFileEntry>, use_color: bool) -> (Seq<char>, HeadingTone, Seq<char>) {
    ("Top files"@, HeadingTone::Info, table_text(top_file_columns(), files.map_values(|e: TopFileEntry| file_cells(e)), use_color))
}

/// The largest-directories section as a section with its title.
pub open spec fn top_dirs_block(dirs: Seq<GroupSummary>, use_color: bool) -> (Seq<char>, HeadingTone, Seq<char>) {
    ("Top dirs"@, HeadingTone::Info, table_text(top_dir_columns(), dirs.map_values(|x: GroupSummary| dir_cells(x)), use_color))
}

/// The warnings section as a section with its title.
pub open spec fn warnings_block(ws: Seq<crate::types::AnalysisWarning>) -> (Seq<char>, HeadingTone, Seq<char>) {
    (
        "Warnings"@,
        HeadingTone::Warning,
        lines_text(ws.map_values(|x: crate::types::AnalysisWarning| "- "@ + warning_text(x))),
    )
}

/// The sections after the summary that a table report shows, in order.
pub open spec fn report_blocks(
    report: ScanReport,
    options: ScanRenderOptions,
    use_color: bool,
    pieces: (Seq<GroupSummary>, Seq<Seq<GroupSummary>>, Seq<TopFileEntry>, Seq<GroupSummary>),
) -> Seq<(Seq<char>, HeadingTone, Seq<char>)> {
    let has_files = report.files@.len() > 0;
    opt_block(has_files, category_block(pieces.0, use_color)) + (if has_files {
        group_blocks(options.group_by@, pieces.1, use_color, options.group_by@.len() as int)
    } else {
        Seq::empty()
    }) + opt_block(options.top_files matches Some(n) && n > 0 && has_files, top_files_block(pieces.2, use_color))
        + opt_block(options.top_dirs matches Some(n) && n > 0 && has_files, top_dirs_block(pieces.3, use_color))
        + opt_block(report.warnings@.len() > 0, warnings_block(report.warnings@))
}

proof fn lemma_report_blocks_titles(
    report: ScanReport,
    options: ScanRenderOptions,
    use_color: bool,
    pieces: (Seq<GroupSummary>, Seq<Seq<GroupSummary>>, Seq<TopFileEntry>, Seq<GroupSummary>),
)
    ensures
        seq!["Summary"@] + block_titles(report_blocks(report, options, use_color, pieces)) == shown_titles(report, options),
{
    let has_files = report.files@.len() > 0;
    let g = options.group_by@;
    let cat = opt_block(has_files, category_block(pieces.0, use_color));
    let groups: Seq<(Seq<char>, HeadingTone, Seq<char>)> = if has_files {
        group_blocks(g, pieces.1, use_color, g.len() as int)
    } else {
        Seq::empty()
    };
    let tf = opt_block(options.top_files matches Some(n) && n > 0 && has_files, top_files_block(pieces.2, use_color));
    let td = opt_block(options.top_dirs matches Some(n) && n > 0 && has_files, top_dirs_block(pieces.3, use_color));
    let w = opt_block(report.warnings@.len() > 0, warnings_block(report.warnings@));
    assert(block_titles(groups) =~= if has_files {
        g.map_values(|x: ScanGroupBy| "Groups by "@ + group_by_name(x))
    } else {
        Seq::empty()
    });
    assert(block_titles(cat + groups + tf + td + w) =~= block_titles(cat) + block_titles(groups) + block_titles(tf)
        + block_titles(td) + block_titles(w));
    assert(seq!["Summary"@] + block_titles(cat + groups + tf + td + w) =~= shown_titles(report, options));
}

proof fn lemma_section_block(title: Seq<char>, columns: Seq<Column>, rows: Seq<Seq<Seq<char>>>, use_color: bool)
    ensures
        section(title, columns, rows, use_color) == blocks_text(
            opt_block(rows.len() > 0, (title, HeadingTone::Info, table_text(columns, rows, use_color))),
            use_color,
        ),
{
    lemma_opt_block(rows.len() > 0, (title, HeadingTone::Info, table_text(columns, rows, use_color)), use_color);
}

proof fn lemma_pieces_shown(
    report: ScanReport,
    options: ScanRenderOptions,
    pieces: (Seq<GroupSummary>, Seq<Seq<GroupSummary>>, Seq<TopFileEntry>, Seq<GroupSummary>),
)
    requires
        render_pieces(report, options, pieces),
    ensures
        (pieces.0.len() > 0) == (report.files@.len() > 0),
        pieces.1.len() == options.group_by@.len(),
        forall|i: int| 0 <= i < pieces.1.len() ==> ((#[trigger] pieces.1[i]).len() > 0) == (report.files@.len() > 0),
        options.top_files is Some ==> (pieces.2.len() > 0) == (options.top_files matches Some(n) && n > 0
            && report.files@.len() > 0),
        options.top_dirs is Some ==> (pieces.3.len() > 0) == (options.top_dirs matches Some(n) && n > 0
            && report.files@.len() > 0),
{
    reveal_strlit("\n");
    let c = false;
    lemma_table_sections(report, options, c, pieces);
    assert forall|i: int| 0 <= i < pieces.1.len() implies ((#[trigger] pieces.1[i]).len() > 0) == (report.files@.len()
        > 0) by {
        lemma_groups_present(pieces.1[i], report.files@, options.group_by@[i]);
    }
    lemma_groups_present(pieces.0, report.files@, ScanGroupBy::Category);
}

proof fn lemma_category_block(cats: Seq<GroupSummary>, has_files: bool, use_color: bool)
    requires
        (cats.len() > 0) == has_files,
    ensures
        section("Category totals"@, category_columns(), cats.map_values(|x: GroupSummary| category_cells(x)), use_color)
            == blocks_text(opt_block(has_files, category_block(cats, use_color)), use_color),
{
    let rows = cats.map_values(|x: GroupSummary| category_cells(x));
    assert(rows.len() == cats.len());
    lemma_section_block("Category totals"@, category_columns(), rows, use_color);
}

proof fn lemma_top_files_block(options: ScanRenderOptions, files: Seq<TopFileEntry>, shown: bool, use_color: bool)
    requires
        shown ==> options.top_files is Some,
        options.top_files is Some ==> (files.len() > 0) == shown,
    ensures
        top_files_section(options, files, use_color) == blocks_text(opt_block(shown, top_files_block(files, use_color)), use_color),
{
    let rows = files.map_values(|e: TopFileEntry| file_cells(e));
    assert(rows.len() == files.len());
    lemma_section_block("Top files"@, top_file_columns(), rows, use_color);
    lemma_opt_block(shown, top_files_block(files, use_color), use_color);
}

proof fn lemma_top_dirs_block(options: ScanRenderOptions, dirs: Seq<GroupSummary>, shown: bool, use_color: bool)
    requires
        shown ==> options.top_dirs is Some,
        options.top_dirs is Some ==> (dirs.len() > 0) == shown,
    ensures
        top_dirs_section(options, dirs, use_color) == blocks_text(opt_block(shown, top_dirs_block(dirs, use_color)), use_color),
{
    let rows = dirs.map_values(|x: GroupSummary| dir_cells(x));
    assert(rows.len() == dirs.len());
    lemma_section_block("Top dirs"@, top_dir_columns(), rows, use_color);
    lemma_opt_block(shown, top_dirs_block(dirs, use_color), use_color);
}

proof fn lemma_warnings_block(ws: Seq<crate::types::AnalysisWarning>, use_color: bool)
    ensures
        warnings_section(ws, use_color) == blocks_text(opt_block(ws.len() > 0, warnings_block(ws)), use_color),
{
    lemma_opt_block(ws.len() > 0, warnings_block(ws), use_color);
}

proof fn lemma_groupings_block(groupings: Seq<ScanGroupBy>, parts: Seq<Seq<GroupSummary>>, has_files: bool, use_color: bool)
    requires
        parts.len() == groupings.len(),
        forall|i: int| 0 <= i < parts.len() ==> ((#[trigger] parts[i]).len() > 0) == has_files,
    ensures
        grouping_sections(groupings, parts, use_color, groupings.len() as int) == blocks_text(
            if has_files {
                group_blocks(groupings, parts, use_color, groupings.len() as int)
            } else {
                Seq::empty()
            },
            use_color,
        ),
{
    lemma_group_blocks(groupings, parts, use_color, groupings.len() as int, has_files);
    assert(blocks_text(Seq::<(Seq<char>, HeadingTone, Seq<char>)>::empty(), use_color) == Seq::<char>::empty());
}

proof fn lemma_five_blocks(
    a: Seq<(Seq<char>, HeadingTone, Seq<char>)>,
    b: Seq<(Seq<char>, HeadingTone, Seq<char>)>,
    c: Seq<(Seq<char>, HeadingTone, Seq<char>)>,
    d: Seq<(Seq<char>, HeadingTone, Seq<char>)>,
    e: Seq<(Seq<char>, HeadingTone, Seq<char>)>,
    head: Seq<char>,
    use_color: bool,
)
    ensures
        head + blocks_text(a, use_color) + blocks_text(b, use_color) + blocks_text(c, use_color) + blocks_text(d, use_color)
            + blocks_text(e, use_color) == head + blocks_text(a + b + c + d + e, use_color),
{
    lemma_blocks_concat(a, b, use_color);
    lemma_blocks_concat(a + b, c, use_color);
    lemma_blocks_concat(a + b + c, d, use_color);
    lemma_blocks_concat(a + b + c + d, e, use_color);
    assert(head + blocks_text(a, use_color) + blocks_text(b, use_color) + blocks_text(c, use_color) + blocks_text(d, use_color)
        + blocks_text(e, use_color) =~= head + blocks_text(a + b + c + d + e, use_color));
}

proof fn lemma_report_blocks_text(
    report: ScanReport,
    options: ScanRenderOptions,
    use_color: bool,
    pieces: (Seq<GroupSummary>, Seq<Seq<GroupSummary>>, Seq<TopFileEntry>, Seq<GroupSummary>),
)
    requires
        (pieces.0.len() > 0) == (report.files@.len() > 0),
        pieces.1.len() == options.group_by@.len(),
        forall|i: int| 0 <= i < pieces.1.len() ==> ((#[trigger] pieces.1[i]).len() > 0) == (report.files@.len() > 0),
        options.top_files is Some ==> (pieces.2.len() > 0) == (options.top_files matches Some(n) && n > 0
            && report.files@.len() > 0),
        options.top_dirs is Some ==> (pieces.3.len() > 0) == (options.top_dirs matches Some(n) && n > 0
            && report.files@.len() > 0),
    ensures
        report_text(report, options, use_color, pieces.0, pieces.1, pieces.2, pieces.3) == summary_section(
            report,
            use_color,
        ) + blocks_text(report_blocks(report, options, use_color, pieces), use_color),
{
    let has_files = report.files@.len() > 0;
    let g = options.group_by@;
    let tf_shown = options.top_files matches Some(n) && n > 0 && has_files;
    let td_shown = options.top_dirs matches Some(n) && n > 0 && has_files;
    lemma_category_block(pieces.0, has_files, use_color);
    lemma_groupings_block(g, pieces.1, has_files, use_color);
    lemma_top_files_block(options, pieces.2, tf_shown, use_color);
    lemma_top_dirs_block(options, pieces.3, td_shown, use_color);
    lemma_warnings_block(report.warnings@, use_color);
    lemma_five_blocks(
        opt_block(has_files, category_block(pieces.0, use_color)),
        if has_files {
            group_blocks(g, pieces.1, use_color, g.len() as int)
        } else {
            Seq::empty()
        },
        opt_block(tf_shown, top_files_block(pieces.2, use_color)),
        opt_block(td_shown, top_dirs_block(pieces.3, use_color)),
        opt_block(report.warnings@.len() > 0, warnings_block(report.warnings@)),
        summary_section(report, use_color),
        use_color,
    );
}

/// A table report is its summary, then one section per heading of `shown_titles`
/// after the summary, in that order: each section is its heading on a line of its
/// own, below a line break, and then its body.
pub proof fn lemma_report_blocks(
    report: ScanReport,
    options: ScanRenderOptions,
    use_color: bool,
    pieces: (Seq<GroupSummary>, Seq<Seq<GroupSummary>>, Seq<TopFileEntry>, Seq<GroupSummary>),
)
    requires
        render_pieces(report, options, pieces),
    ensures
        report_text(report, options, use_color, pieces.0, pieces.1, pieces.2, pieces.3) == summary_section(
            report,
            use_color,
        ) + blocks_text(report_blocks(report, options, use_color, pieces), use_color),
        seq!["Summary"@] + block_titles(report_blocks(report, options, use_color, pieces)) == shown_titles(
            report,
            options,
        ),
{
    lemma_pieces_shown(report, options, pieces);
    lemma_report_blocks_text(report, options, use_color, pieces);
    lemma_report_blocks_titles(report, options, use_color, pieces);
}

} // verus!
