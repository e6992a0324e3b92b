//! The plain listings of the detect and explain commands, and how a warning reads.
use vstd::prelude::*;

use crate::analyze::{DetectReport, ExplainReport};
use crate::metrics::{spec_sloc, FileMetrics};
use crate::paths::opt_view;
use crate::report::table::lines_text;
use crate::text::{decimal, push_decimal, push_str, string_from_chars, trim_end, trim_end_from};
use crate::types::{category_name, language_name, AnalysisWarning, Language, LineExplanation};

verus! {

/// How a warning reads: the path and language it names (either may be missing),
/// then the message.
pub open spec fn warning_text(w: AnalysisWarning) -> Seq<char> {
    match (opt_view(w.path), w.language) {
        (Some(p), Some(l)) => p + " ("@ + language_name(l) + "): "@ + w.message@,
        (Some(p), None) => p + ": "@ + w.message@,
        (None, Some(l)) => language_name(l) + ": "@ + w.message@,
        (None, None) => w.message@,
    }
}

pub fn format_warning(warning: &AnalysisWarning) -> (r: String)
    ensures
        r@ == warning_text(*warning),
{
    let mut out: Vec<char> = Vec::new();
    match (&warning.path, warning.language) {
        (Some(path), Some(language)) => {
            push_str(&mut out, path.as_str());
            push_str(&mut out, " (");
            push_str(&mut out, language.as_str());
            push_str(&mut out, "): ");
        },
        (Some(path), None) => {
            push_str(&mut out, path.as_str());
            push_str(&mut out, ": ");
        },
        (None, Some(language)) => {
            push_str(&mut out, language.as_str());
            push_str(&mut out, ": ");
        },
        (None, None) => {},
    }
    push_str(&mut out, warning.message.as_str());
    string_from_chars(out.as_slice())
}

/// A titled list: `title:` then `- item` lines, or `- none`.
pub open spec fn list_text(title: Seq<char>, items: Seq<Seq<char>>) -> Seq<char> {
    title + ":\n"@ + if items.len() == 0 {
        "- none\n"@
    } else {
        lines_text(items.map_values(|i: Seq<char>| "- "@ + i))
    }
}

/// Appends a titled list.
pub fn write_list_section(out: &mut Vec<char>, title: &str, items: &Vec<String>)
    ensures
        final(out)@ == old(out)@ + list_text(title@, items@.map_values(|s: String| s@)),
{
    let ghost start = out@;
    let ghost iv = items@.map_values(|s: String| s@);
    push_str(out, title);
    push_str(out, ":\n");
    if items.len() == 0 {
        push_str(out, "- none\n");
        return;
    }
    let ghost lines = iv.map_values(|i: Seq<char>| "- "@ + i);
    let ghost mid = out@;
    let mut k: usize = 0;
    while k < items.len()
        invariant
            k <= items.len(),
            iv == items@.map_values(|s: String| s@),
            lines == iv.map_values(|i: Seq<char>| "- "@ + i),
            out@ == mid + lines_text(lines.take(k as int)),
        decreases items.len() - k,
    {
        push_str(out, "- ");
        push_str(out, items[k].as_str());
        push_str(out, "\n");
        proof {
            assert(lines.take(k + 1).drop_last() =~= lines.take(k as int));
            assert(lines[k as int] == "- "@ + items@[k as int]@);
            assert(out@ =~= mid + lines_text(lines.take(k + 1)));
        }
        k += 1;
    }
    assert(lines.take(items.len() as int) =~= lines);
}

/// `line N [kind] snippet: reason`.
pub open spec fn explanation_text(e: LineExplanation) -> Seq<char> {
    "line "@ + decimal(e.line_number as nat) + " ["@ + e.kind@ + "] "@ + e.snippet@ + ": "@ + e.reason@
}

pub fn format_line_explanation(e: &LineExplanation) -> (r: String)
    ensures
        r@ == explanation_text(*e),
{
    let mut out: Vec<char> = Vec::new();
    push_str(&mut out, "line ");
    push_decimal(&mut out, e.line_number as u64);
    push_str(&mut out, " [");
    push_str(&mut out, e.kind.as_str());
    push_str(&mut out, "] ");
    push_str(&mut out, e.snippet.as_str());
    push_str(&mut out, ": ");
    push_str(&mut out, e.reason.as_str());
    string_from_chars(out.as_slice())
}

/// `text` without trailing whitespace, as a new `String`.
pub fn trimmed_end(text: &Vec<char>) -> (r: String)
    ensures
        r@ == trim_end(text@),
{
    let end = trim_end_from(text.as_slice(), 0);
    assert(text@.subrange(0, text@.len() as int) =~= text@);
    let mut out: Vec<char> = Vec::new();
    crate::text::push_range(&mut out, text.as_slice(), 0, end);
    string_from_chars(out.as_slice())
}

pub open spec fn bool_text(b: bool) -> Seq<char> {
    if b {
        "true"@
    } else {
        "false"@
    }
}

/// `name` followed by a value and a newline.
pub open spec fn field_line(name: Seq<char>, value: Seq<char>) -> Seq<char> {
    name + value + "\n"@
}

/// The metrics block of an explanation.
pub open spec fn metrics_text(m: FileMetrics) -> Seq<char> {
    "metrics:\n"@ + field_line("  bytes: "@, decimal(m.bytes as nat)) + field_line(
        "  total_lines: "@,
        decimal(m.total_lines as nat),
    ) + field_line("  code_lines: "@, decimal(m.code_lines as nat)) + field_line(
        "  mixed_lines: "@,
        decimal(m.mixed_lines as nat),
    ) + field_line("  comment_lines: "@, decimal(m.comment_lines as nat)) + field_line(
        "  doc_lines: "@,
        decimal(m.doc_lines as nat),
    ) + field_line("  blank_lines: "@, decimal(m.blank_lines as nat)) + field_line(
        "  sloc: "@,
        decimal(spec_sloc(m) as nat),
    ) + field_line("  parse_errors: "@, decimal(m.parse_errors as nat)) + field_line(
        "  is_generated: "@,
        bool_text(m.is_generated),
    ) + field_line("  is_vendor: "@, bool_text(m.is_vendor))
}

fn push_number_line(out: &mut Vec<char>, name: &str, value: u64)
    ensures
        final(out)@ == old(out)@ + field_line(name@, decimal(value as nat)),
{
    let ghost start = out@;
    push_str(out, name);
    push_decimal(out, value);
    push_str(out, "\n");
    assert(out@ =~= start + field_line(name@, decimal(value as nat)));
}

fn push_bool_line(out: &mut Vec<char>, name: &str, value: bool)
    ensures
        final(out)@ == old(out)@ + field_line(name@, bool_text(value)),
{
    let ghost start = out@;
    push_str(out, name);
    if value {
        push_str(out, "true");
    } else {
        push_str(out, "false");
    }
    push_str(out, "\n");
    assert(out@ =~= start + field_line(name@, bool_text(value)));
}

#[verifier::rlimit(40)]
fn write_metrics_section(out: &mut Vec<char>, m: &FileMetrics)
    requires
        spec_sloc(*m) <= u32::MAX,
    ensures
        final(out)@ == old(out)@ + metrics_text(*m),
{
    let ghost start = out@;
    push_str(out, "metrics:\n");
    let ghost s0 = out@;
    push_number_line(out, "  bytes: ", m.bytes);
    push_number_line(out, "  total_lines: ", m.total_lines as u64);
    push_number_line(out, "  code_lines: ", m.code_lines as u64);
    push_number_line(out, "  mixed_lines: ", m.mixed_lines as u64);
    let ghost s4 = out@;
    assert(s4 =~= start + "metrics:\n"@ + field_line("  bytes: "@, decimal(m.bytes as nat)) + field_line(
        "  total_lines: "@,
        decimal(m.total_lines as nat),
    ) + field_line("  code_lines: "@, decimal(m.code_lines as nat)) + field_line(
        "  mixed_lines: "@,
        decimal(m.mixed_lines as nat),
    ));
    push_number_line(out, "  comment_lines: ", m.comment_lines as u64);
    push_number_line(out, "  doc_lines: ", m.doc_lines as u64);
    push_number_line(out, "  blank_lines: ", m.blank_lines as u64);
    push_number_line(out, "  sloc: ", m.sloc() as u64);
    let ghost s8 = out@;
    assert(s8 =~= s4 + field_line("  comment_lines: "@, decimal(m.comment_lines as nat)) + field_line(
        "  doc_lines: "@,
        decimal(m.doc_lines as nat),
    ) + field_line("  blank_lines: "@, decimal(m.blank_lines as nat)) + field_line(
        "  sloc: "@,
        decimal(spec_sloc(*m) as nat),
    ));
    push_number_line(out, "  parse_errors: ", m.parse_errors as u64);
    push_bool_line(out, "  is_generated: ", m.is_generated);
    push_bool_line(out, "  is_vendor: ", m.is_vendor);
    assert(out@ =~= start + metrics_text(*m));
}

/// The detect listing: the path, then languages, presets, categories, ignore
/// rules and warnings as lists.
pub open spec fn detect_text(r: DetectReport) -> Seq<char> {
    trim_end(
        "path: "@ + r.path@ + "\n"@ + list_text("languages"@, r.languages@.map_values(|l: Language| language_name(l)))
            + list_text("presets"@, r.presets@.map_values(|s: String| s@)) + list_text(
            "categories"@,
            r.categories@.map_values(|c: crate::types::FileCategory| category_name(c)),
        ) + list_text("active_ignore_rules"@, r.active_ignore_rules@.map_values(|s: String| s@))
            + list_text("warnings"@, r.warnings@.map_values(|w: AnalysisWarning| warning_text(w))),
    )
}

pub fn render_detect_table(report: &DetectReport) -> (r: String)
    ensures
        r@ == detect_text(*report),
{
    let mut out: Vec<char> = Vec::new();
    push_str(&mut out, "path: ");
    push_str(&mut out, report.path.as_str());
    push_str(&mut out, "\n");
    let mut languages: Vec<String> = Vec::new();
    let mut i: usize = 0;
    while i < report.languages.len()
        invariant
            i <= report.languages.len(),
            languages@.map_values(|s: String| s@) == report.languages@.take(i as int).map_values(|l: Language| language_name(l)),
        decreases report.languages.len() - i,
    {
        let ghost before = languages@;
        languages.push(report.languages[i].as_str().to_owned());
        proof {
            assert(languages@.map_values(|s: String| s@) =~= before.map_values(|s: String| s@).push(language_name(report.languages@[i as int])));
            assert(report.languages@.take(i + 1).map_values(|l: Language| language_name(l)) =~= report.languages@.take(i as int).map_values(|l: Language| language_name(l)).push(language_name(report.languages@[i as int])));
        }
        i += 1;
    }
    assert(report.languages@.take(report.languages@.len() as int) =~= report.languages@);
    write_list_section(&mut out, "languages", &languages);
    write_list_section(&mut out, "presets", &report.presets);
    let mut categories: Vec<String> = Vec::new();
    let mut j: usize = 0;
    while j < report.categories.len()
        invariant
            j <= report.categories.len(),
            categories@.map_values(|s: String| s@) == report.categories@.take(j as int).map_values(|c: crate::types::FileCategory| category_name(c)),
        decreases report.categories.len() - j,
    {
        let ghost before = categories@;
        categories.push(report.categories[j].as_str().to_owned());
        proof {
            assert(categories@.map_values(|s: String| s@) =~= before.map_values(|s: String| s@).push(category_name(report.categories@[j as int])));
            assert(report.categories@.take(j + 1).map_values(|c: crate::types::FileCategory| category_name(c)) =~= report.categories@.take(j as int).map_values(|c: crate::types::FileCategory| category_name(c)).push(category_name(report.categories@[j as int])));
        }
        j += 1;
    }
    assert(report.categories@.take(report.categories@.len() as int) =~= report.categories@);
    write_list_section(&mut out, "categories", &categories);
    write_list_section(&mut out, "active_ignore_rules", &report.active_ignore_rules);
    let warnings = warning_lines(&report.warnings);
    write_list_section(&mut out, "warnings", &warnings);
    trimmed_end(&out)
}

/// Each warning as it reads.
pub fn warning_lines(ws: &Vec<AnalysisWarning>) -> (r: Vec<String>)
    ensures
        r@.map_values(|s: String| s@) == ws@.map_values(|w: AnalysisWarning| warning_text(w)),
{
    let mut out: Vec<String> = Vec::new();
    let mut k: usize = 0;
    while k < ws.len()
        invariant
            k <= ws.len(),
            out@.map_values(|s: String| s@) == ws@.take(k as int).map_values(|w: AnalysisWarning| warning_text(w)),
        decreases ws.len() - k,
    {
        let ghost before = out@;
        out.push(format_warning(&ws[k]));
        proof {
            assert(out@.map_values(|s: String| s@) =~= before.map_values(|s: String| s@).push(warning_text(ws@[k as int])));
            assert(ws@.take(k + 1).map_values(|w: AnalysisWarning| warning_text(w)) =~= ws@.take(k as int).map_values(|w: AnalysisWarning| warning_text(w)).push(warning_text(ws@[k as int])));
        }
        k += 1;
    }
    assert(ws@.take(ws@.len() as int) =~= ws@);
    out
}

/// The explain listing: path, language and category, the metrics, then reasons,
/// line explanations and warnings as lists.
pub open spec fn explain_text(r: ExplainReport) -> Seq<char> {
    trim_end(
        "path: "@ + r.path@ + "\n"@ + "language: "@ + language_name(r.language) + "\n"@ + "category: "@
            + category_name(r.category) + "\n"@ + metrics_text(r.metrics) + list_text(
            "reasons"@,
            r.reasons@.map_values(|s: String| s@),
        ) + list_text(
            "line_explanations"@,
            r.line_explanations@.map_values(|e: LineExplanation| explanation_text(e)),
        ) + list_text("warnings"@, r.warnings@.map_values(|w: AnalysisWarning| warning_text(w))),
    )
}

pub fn render_explain_table(report: &ExplainReport) -> (r: String)
    requires
        spec_sloc(report.metrics) <= u32::MAX,
    ensures
        r@ == explain_text(*report),
{
    let mut out: Vec<char> = Vec::new();
    push_str(&mut out, "path: ");
    push_str(&mut out, report.path.as_str());
    push_str(&mut out, "\n");
    push_str(&mut out, "language: ");
    push_str(&mut out, report.language.as_str());
    push_str(&mut out, "\n");
    push_str(&mut out, "category: ");
    push_str(&mut out, report.category.as_str());
    push_str(&mut out, "\n");
    write_metrics_section(&mut out, &report.metrics);
    write_list_section(&mut out, "reasons", &report.reasons);
    let mut lines: Vec<String> = Vec::new();
    let mut k: usize = 0;
    while k < report.line_explanations.len()
        invariant
            k <= report.line_explanations.len(),
            lines@.map_values(|s: String| s@) == report.line_explanations@.take(k as int).map_values(|e: LineExplanation| explanation_text(e)),
        decreases report.line_explanations.len() - k,
    {
        let ghost before = lines@;
        lines.push(format_line_explanation(&report.line_explanations[k]));
        proof {
            assert(lines@.map_values(|s: String| s@) =~= before.map_values(|s: String| s@).push(explanation_text(report.line_explanations@[k as int])));
            assert(report.line_explanations@.take(k + 1).map_values(|e: LineExplanation| explanation_text(e)) =~= report.line_explanations@.take(k as int).map_values(|e: LineExplanation| explanation_text(e)).push(explanation_text(report.line_explanations@[k as int])));
        }
        k += 1;
    }
    assert(report.line_explanations@.take(report.line_explanations@.len() as int) =~= report.line_explanations@);
    write_list_section(&mut out, "line_explanations", &lines);
    let warnings = warning_lines(&report.warnings);
    write_list_section(&mut out, "warnings", &warnings);
    trimmed_end(&out)
}

} // verus!
