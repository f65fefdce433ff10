//! Markdown reports of analyze responses: scores table and diagnostics grouped
//! by severity.
use vstd::prelude::*;
use crate::output::{
    axis_label, axis_label_spec, diagnostic_md, format_diagnostic_md, score_axes, score_axes_spec,
    severity_label, severity_label_spec, severity_rank, severity_rank_spec, text_or, DiagnosticView,
};
use crate::output::{escape_md, escape_md_spec};
use crate::json::{get, json_get, jv, Json};
use crate::tally::{count_by_rule, lemma_count_is_tally, rule_keys, tally, tally_view};
use crate::text::{decimal, push_char, push_decimal};

verus! {

/// An analyze response as the Markdown report reads it.
pub struct AnalyzeView {
    /// When the response has a `score` object: for each score axis in display
    /// order, its value written with two decimals when it is a number.
    pub score: Option<Vec<Option<String>>>,
    /// The `diagnostics` array, when present.
    pub diagnostics: Option<Vec<DiagnosticView>>,
}

/// The severity a diagnostic is grouped under (`hint` when it names none).
pub open spec fn group_severity(d: DiagnosticView) -> Seq<char> {
    text_or(d.severity, "hint"@)
}

/// Whether `d` falls in the group of rank `r`.
pub open spec fn in_group(d: DiagnosticView, r: u8) -> bool {
    severity_rank_spec(group_severity(d)) == r
}

/// The number of diagnostics of rank `r`.
pub open spec fn group_size(ds: Seq<DiagnosticView>, r: u8) -> nat
    decreases ds.len(),
{
    if ds.len() == 0 {
        0
    } else {
        group_size(ds.drop_last(), r) + if in_group(ds.last(), r) {
            1nat
        } else {
            0nat
        }
    }
}

/// Every diagnostic falls in exactly one of the five severity groups of the
/// analysis report (errors, warnings, information, hints, others), so the
/// groups together list as many diagnostics as the report counts.
pub proof fn groups_cover_all_diagnostics(ds: Seq<DiagnosticView>)
    ensures
        group_size(ds, 0) + group_size(ds, 1) + group_size(ds, 2) + group_size(ds, 3) + group_size(
            ds,
            4,
        ) == ds.len(),
    decreases ds.len(),
{
    if ds.len() > 0 {
        groups_cover_all_diagnostics(ds.drop_last());
        let r = severity_rank_spec(group_severity(ds.last()));
        assert(r <= 4);
    }
}

/// The Markdown bullets of the diagnostics of rank `r`, in order.
pub open spec fn group_items_md(ds: Seq<DiagnosticView>, r: u8) -> Seq<char>
    decreases ds.len(),
{
    if ds.len() == 0 {
        seq![]
    } else {
        group_items_md(ds.drop_last(), r) + if in_group(ds.last(), r) {
            diagnostic_md(ds.last())
        } else {
            seq![]
        }
    }
}

/// The severity of the first diagnostic of rank `r`, which names the group.
pub open spec fn group_first_severity(ds: Seq<DiagnosticView>, r: u8) -> Seq<char>
    decreases ds.len(),
{
    if ds.len() == 0 {
        seq![]
    } else if group_size(ds.drop_last(), r) > 0 {
        group_first_severity(ds.drop_last(), r)
    } else if in_group(ds.last(), r) {
        group_severity(ds.last())
    } else {
        seq![]
    }
}

/// The section of the diagnostics of rank `r`, empty when there are none.
pub open spec fn group_md(ds: Seq<DiagnosticView>, r: u8) -> Seq<char> {
    if group_size(ds, r) == 0 {
        seq![]
    } else {
        "### "@ + severity_label_spec(group_first_severity(ds, r)) + " ("@ + decimal(
            group_size(ds, r),
        ) + ")\n\n"@ + group_items_md(ds, r) + seq!['\n']
    }
}

/// The sections of ranks `0` up to `r - 1`, most severe first.
pub open spec fn groups_md(ds: Seq<DiagnosticView>, r: nat) -> Seq<char>
    decreases r,
{
    if r == 0 {
        seq![]
    } else {
        groups_md(ds, (r - 1) as nat) + group_md(ds, (r - 1) as u8)
    }
}

/// One row of the scores table, when the axis has a value.
pub open spec fn score_row_md(axis: Seq<char>, value: Option<String>) -> Seq<char> {
    match value {
        Some(v) => "| "@ + axis_label_spec(axis) + " | "@ + v@ + " |\n"@,
        None => seq![],
    }
}

/// The rows of the scores table for the first `n` axes.
pub open spec fn score_rows_md(values: Seq<Option<String>>, n: nat) -> Seq<char>
    decreases n,
{
    if n == 0 {
        seq![]
    } else {
        score_rows_md(values, (n - 1) as nat) + if n - 1 < values.len() {
            score_row_md(score_axes_spec()[n - 1], values[n - 1])
        } else {
            seq![]
        }
    }
}

/// The Markdown report of an analyze response.
pub open spec fn analyze_md(v: AnalyzeView) -> Seq<char> {
    "# Prose Analysis\n\n"@ + match v.score {
        Some(s) => "## Scores\n\n| Axis | Score |\n|------|-------|\n"@ + score_rows_md(s@, 6)
            + seq!['\n'],
        None => seq![],
    } + match v.diagnostics {
        Some(ds) => "## Diagnostics ("@ + decimal(ds@.len()) + " issues)\n\n"@ + groups_md(ds@, 5),
        None => seq![],
    }
        + "---\n*Generated by [ironprose](https://ironprose.com) \u{b7} deterministic craft analyzers*\n"@
}

proof fn lemma_group_size_bound(ds: Seq<DiagnosticView>, r: u8)
    ensures
        group_size(ds, r) <= ds.len(),
    decreases ds.len(),
{
    if ds.len() > 0 {
        lemma_group_size_bound(ds.drop_last(), r);
    }
}

/// Appends the section of the diagnostics of rank `rank`.
#[verifier::spinoff_prover]
fn append_group(out: &mut String, ds: &Vec<DiagnosticView>, rank: u8)
    ensures
        final(out)@ == old(out)@ + group_md(ds@, rank),
{
    let mut items = String::new();
    let mut size: usize = 0;
    let mut first: Option<String> = None;
    let mut i: usize = 0;
    while i < ds.len()
        invariant
            0 <= i <= ds@.len(),
            items@ == group_items_md(ds@.take(i as int), rank),
            size as nat == group_size(ds@.take(i as int), rank),
            size <= i,
            size == 0 <==> first is None,
            first matches Some(f) ==> f@ == group_first_severity(ds@.take(i as int), rank),
        decreases ds@.len() - i,
    {
        assert(ds@.take(i + 1).drop_last() == ds@.take(i as int));
        assert(ds@.take(i + 1).last() == ds@[i as int]);
        let d = &ds[i];
        let sev = text_or_exec_sev(&d.severity);
        if severity_rank(sev.as_str()) == rank {
            format_diagnostic_md(&mut items, d);
            size = size + 1;
            if first.is_none() {
                first = Some(sev);
            }
        }
        i = i + 1;
    }
    assert(ds@.take(i as int) == ds@);
    if size > 0 {
        out.append("### ");
        match &first {
            Some(f) => {
                let label = severity_label(f.as_str());
                out.append(label.as_str());
            },
            None => {},
        }
        out.append(" (");
        push_decimal(out, size as u64);
        out.append(")\n\n");
        out.append(items.as_str());
        push_char(out, '\n');
    }
}

fn text_or_exec_sev(o: &Option<String>) -> (r: String)
    ensures
        r@ == text_or(*o, "hint"@),
{
    match o {
        Some(s) => s.clone(),
        None => String::from_str("hint"),
    }
}

fn score_row_exec(axis: &str, value: &Option<String>) -> (r: String)
    ensures
        r@ == score_row_md(axis@, *value),
{
    let mut row = String::new();
    match value {
        Some(val) => {
            row.append("| ");
            let label = axis_label(axis);
            row.append(label.as_str());
            row.append(" | ");
            row.append(val.as_str());
            row.append(" |\n");
        },
        None => {},
    }
    row
}

/// Render an `analyze` response as a Markdown report: the scores table, then
/// the diagnostics grouped by severity (most severe first), then a footer.
#[verifier::spinoff_prover]
pub fn render_markdown_analyze(v: &AnalyzeView) -> (r: String)
    ensures
        r@ == analyze_md(*v),
{
    let mut out = String::from_str("# Prose Analysis\n\n");
    let ghost start = out@;
    match &v.score {
        Some(s) => {
            out.append("## Scores\n\n| Axis | Score |\n|------|-------|\n");
            let axes = score_axes();
            let ghost base = out@;
            let mut i: usize = 0;
            while i < 6
                invariant
                    0 <= i <= 6,
                    axes@.len() == 6,
                    forall|k: int| 0 <= k < 6 ==> #[trigger] axes@[k]@ == score_axes_spec()[k],
                    out@ == base + score_rows_md(s@, i as nat),
                decreases 6 - i,
            {
                if i < s.len() {
                    let row = score_row_exec(axes[i], &s[i]);
                    assert(score_rows_md(s@, (i + 1) as nat) == score_rows_md(s@, i as nat) + row@);
                    out.append(row.as_str());
                } else {
                    assert(score_rows_md(s@, (i + 1) as nat) == score_rows_md(s@, i as nat));
                }
                i = i + 1;
            }
            push_char(&mut out, '\n');
        },
        None => {},
    }
    let ghost after_score = out@;
    match &v.diagnostics {
        Some(ds) => {
            out.append("## Diagnostics (");
            push_decimal(&mut out, ds.len() as u64);
            out.append(" issues)\n\n");
            let ghost base = out@;
            let mut r: u8 = 0;
            while r < 5
                invariant
                    0 <= r <= 5,
                    out@ == base + groups_md(ds@, r as nat),
                decreases 5 - r,
            {
                append_group(&mut out, ds, r);
                r = r + 1;
            }
        },
        None => {},
    }
    out.append(
        "---\n*Generated by [ironprose](https://ironprose.com) \u{b7} deterministic craft analyzers*\n",
    );
    out
}

/// One axis of a score comparison, each number written with two decimals; the
/// difference carries a `+` sign when it is not negative.
pub struct AxisComparison {
    pub original: String,
    pub revised: String,
    pub delta: String,
}

/// A compare response as the Markdown report reads it.
pub struct CompareView {
    /// When the response has both score objects: for each score axis in
    /// display order, the comparison when both scores have it as a number.
    pub scores: Option<Vec<Option<AxisComparison>>>,
    /// The `fixed` array (empty when absent).
    pub fixed: Vec<DiagnosticView>,
    /// The `introduced` array (empty when absent).
    pub introduced: Vec<DiagnosticView>,
    /// The `persistent` array (empty when absent).
    pub persistent: Vec<DiagnosticView>,
}

/// One row of the score comparison table, when the axis is compared.
pub open spec fn comparison_row_md(axis: Seq<char>, c: Option<AxisComparison>) -> Seq<char> {
    match c {
        Some(c) => "| "@ + axis_label_spec(axis) + " | "@ + c.original@ + " | "@ + c.revised@
            + " | "@ + c.delta@ + " |\n"@,
        None => seq![],
    }
}

/// The rows of the score comparison table for the first `n` axes.
pub open spec fn comparison_rows_md(values: Seq<Option<AxisComparison>>, n: nat) -> Seq<char>
    decreases n,
{
    if n == 0 {
        seq![]
    } else {
        comparison_rows_md(values, (n - 1) as nat) + if n - 1 < values.len() {
            comparison_row_md(score_axes_spec()[n - 1], values[n - 1])
        } else {
            seq![]
        }
    }
}

/// The rows of a rule count table.
pub open spec fn tally_rows_md(t: Seq<(Seq<char>, nat)>) -> Seq<char>
    decreases t.len(),
{
    if t.len() == 0 {
        seq![]
    } else {
        tally_rows_md(t.drop_last()) + "| `"@ + escape_md_spec(t.last().0) + "` | "@ + decimal(
            t.last().1,
        ) + " |\n"@
    }
}

/// The Markdown bullets of all diagnostics, in order.
pub open spec fn items_md(ds: Seq<DiagnosticView>) -> Seq<char>
    decreases ds.len(),
{
    if ds.len() == 0 {
        seq![]
    } else {
        items_md(ds.drop_last()) + diagnostic_md(ds.last())
    }
}

/// A rule count table of the diagnostics.
pub open spec fn count_table_md(ds: Seq<DiagnosticView>) -> Seq<char> {
    "| Rule | Count |\n|------|-------|\n"@ + tally_rows_md(tally(rule_keys(ds))) + seq!['\n']
}

/// The score comparison section, present when both scores are.
pub open spec fn compare_scores_md(scores: Option<Vec<Option<AxisComparison>>>) -> Seq<char> {
    match scores {
        Some(s) => "## Score Comparison\n\n| Axis | Original | Revised | \u{394} |\n|------|----------|---------|---|\n"@
            + comparison_rows_md(s@, 6) + seq!['\n'],
        None => seq![],
    }
}

/// The section of fixed issues, counted by rule.
pub open spec fn fixed_md(ds: Seq<DiagnosticView>) -> Seq<char> {
    "## Fixed ("@ + decimal(ds.len()) + " issues resolved)\n\n"@ + (if ds.len() == 0 {
        "No issues were fixed.\n\n"@
    } else {
        count_table_md(ds)
    })
}

/// The section of introduced issues, listed one by one.
pub open spec fn introduced_md(ds: Seq<DiagnosticView>) -> Seq<char> {
    "## Introduced ("@ + decimal(ds.len()) + " new issues)\n\n"@ + (if ds.len() == 0 {
        "No new issues were introduced.\n\n"@
    } else {
        items_md(ds) + seq!['\n']
    })
}

/// The section of persistent issues, counted by rule.
pub open spec fn persistent_md(ds: Seq<DiagnosticView>) -> Seq<char> {
    "## Persistent ("@ + decimal(ds.len()) + " unchanged)\n\n"@ + (if ds.len() == 0 {
        "No persistent issues.\n\n"@
    } else {
        count_table_md(ds)
    })
}

/// The Markdown revision report of a compare response.
pub open spec fn compare_md(v: CompareView) -> Seq<char> {
    "# Revision Report\n\n"@ + compare_scores_md(v.scores) + fixed_md(v.fixed@) + introduced_md(
        v.introduced@,
    ) + persistent_md(v.persistent@) + "---\n*Generated by [ironprose](https://ironprose.com)*\n"@
}

/// Appends the rule count table of the diagnostics.
#[verifier::spinoff_prover]
fn append_count_table(out: &mut String, ds: &Vec<DiagnosticView>)
    ensures
        final(out)@ == old(out)@ + count_table_md(ds@),
{
    let counts = count_by_rule(ds);
    proof {
        lemma_count_is_tally(counts@, rule_keys(ds@));
    }
    out.append("| Rule | Count |\n|------|-------|\n");
    let ghost base = out@;
    let mut i: usize = 0;
    while i < counts.len()
        invariant
            0 <= i <= counts@.len(),
            out@ == base + tally_rows_md(tally_view(counts@).take(i as int)),
        decreases counts@.len() - i,
    {
        let ghost tv = tally_view(counts@);
        assert(tv.take(i + 1).drop_last() == tv.take(i as int));
        assert(tv.take(i + 1).last() == (counts@[i as int].0@, counts@[i as int].1 as nat));
        out.append("| `");
        let e = escape_md(counts[i].0.as_str());
        out.append(e.as_str());
        out.append("` | ");
        push_decimal(out, counts[i].1 as u64);
        out.append(" |\n");
        i = i + 1;
    }
    assert(tally_view(counts@).take(i as int) == tally_view(counts@));
    push_char(out, '\n');
}

/// Appends the Markdown bullets of all diagnostics.
fn append_items(out: &mut String, ds: &Vec<DiagnosticView>)
    ensures
        final(out)@ == old(out)@ + items_md(ds@),
{
    let ghost base = out@;
    let mut i: usize = 0;
    while i < ds.len()
        invariant
            0 <= i <= ds@.len(),
            out@ == base + items_md(ds@.take(i as int)),
        decreases ds@.len() - i,
    {
        assert(ds@.take(i + 1).drop_last() == ds@.take(i as int));
        format_diagnostic_md(out, &ds[i]);
        i = i + 1;
    }
    assert(ds@.take(i as int) == ds@);
}

fn comparison_row_exec(axis: &str, c: &Option<AxisComparison>) -> (r: String)
    ensures
        r@ == comparison_row_md(axis@, *c),
{
    let mut row = String::new();
    match c {
        Some(c) => {
            row.append("| ");
            let label = axis_label(axis);
            row.append(label.as_str());
            row.append(" | ");
            row.append(c.original.as_str());
            row.append(" | ");
            row.append(c.revised.as_str());
            row.append(" | ");
            row.append(c.delta.as_str());
            row.append(" |\n");
        },
        None => {},
    }
    row
}

#[verifier::spinoff_prover]
fn append_compare_scores(out: &mut String, scores: &Option<Vec<Option<AxisComparison>>>)
    ensures
        final(out)@ == old(out)@ + compare_scores_md(*scores),
{
    match scores {
        Some(s) => {
            out.append(
                "## Score Comparison\n\n| Axis | Original | Revised | \u{394} |\n|------|----------|---------|---|\n",
            );
            let axes = score_axes();
            let ghost base = out@;
            let mut i: usize = 0;
            while i < 6
                invariant
                    0 <= i <= 6,
                    axes@.len() == 6,
                    forall|k: int| 0 <= k < 6 ==> #[trigger] axes@[k]@ == score_axes_spec()[k],
                    out@ == base + comparison_rows_md(s@, i as nat),
                decreases 6 - i,
            {
                if i < s.len() {
                    let row = comparison_row_exec(axes[i], &s[i]);
                    assert(comparison_rows_md(s@, (i + 1) as nat) == comparison_rows_md(s@, i as nat)
                        + row@);
                    out.append(row.as_str());
                } else {
                    assert(comparison_rows_md(s@, (i + 1) as nat) == comparison_rows_md(s@, i as nat));
                }
                i = i + 1;
            }
            push_char(out, '\n');
        },
        None => {},
    }
}

fn append_fixed(out: &mut String, ds: &Vec<DiagnosticView>)
    ensures
        final(out)@ == old(out)@ + fixed_md(ds@),
{
    out.append("## Fixed (");
    push_decimal(out, ds.len() as u64);
    out.append(" issues resolved)\n\n");
    if ds.len() == 0 {
        out.append("No issues were fixed.\n\n");
    } else {
        append_count_table(out, ds);
    }
}

fn append_introduced(out: &mut String, ds: &Vec<DiagnosticView>)
    ensures
        final(out)@ == old(out)@ + introduced_md(ds@),
{
    out.append("## Introduced (");
    push_decimal(out, ds.len() as u64);
    out.append(" new issues)\n\n");
    if ds.len() == 0 {
        out.append("No new issues were introduced.\n\n");
    } else {
        append_items(out, ds);
        push_char(out, '\n');
    }
}

fn append_persistent(out: &mut String, ds: &Vec<DiagnosticView>)
    ensures
        final(out)@ == old(out)@ + persistent_md(ds@),
{
    out.append("## Persistent (");
    push_decimal(out, ds.len() as u64);
    out.append(" unchanged)\n\n");
    if ds.len() == 0 {
        out.append("No persistent issues.\n\n");
    } else {
        append_count_table(out, ds);
    }
}

/// Render a `compare` response as a Markdown revision report: the score
/// comparison, fixed issues counted by rule, introduced issues listed one by
/// one, persistent issues counted by rule, then a footer.
pub fn render_markdown_compare(v: &CompareView) -> (r: String)
    ensures
        r@ == compare_md(*v),
{
    let mut out = String::from_str("# Revision Report\n\n");
    append_compare_scores(&mut out, &v.scores);
    append_fixed(&mut out, &v.fixed);
    append_introduced(&mut out, &v.introduced);
    append_persistent(&mut out, &v.persistent);
    out.append("---\n*Generated by [ironprose](https://ironprose.com)*\n");
    out
}

/// A response as a Markdown report reads it: a comparison where the response
/// has any of `fixed`, `introduced` or `persistent`, an analysis otherwise.
pub enum MarkdownReport {
    Analyze(AnalyzeView),
    Compare(CompareView),
}

/// Whether a response is that of `compare`: it has any of the keys `fixed`,
/// `introduced` or `persistent`.
pub fn has_compare_keys(value: &Json) -> (r: bool)
    ensures
        r == (json_get(jv(*value), "fixed"@) is Some || json_get(jv(*value), "introduced"@) is Some
            || json_get(jv(*value), "persistent"@) is Some),
{
    get(value, "fixed").is_some() || get(value, "introduced").is_some() || get(
        value,
        "persistent",
    ).is_some()
}

/// The text of a Markdown report.
pub open spec fn markdown_md(r: MarkdownReport) -> Seq<char> {
    match r {
        MarkdownReport::Analyze(v) => analyze_md(v),
        MarkdownReport::Compare(v) => compare_md(v),
    }
}

/// Render a response as a Markdown report, of a comparison or of an analysis.
pub fn render_markdown(report: &MarkdownReport) -> (r: String)
    ensures
        r@ == markdown_md(*report),
{
    match report {
        MarkdownReport::Analyze(v) => render_markdown_analyze(v),
        MarkdownReport::Compare(v) => render_markdown_compare(v),
    }
}

/// The comparison rows of the axes from `m` up to `n`.
spec fn rows_between(values: Seq<Option<AxisComparison>>, m: nat, n: nat) -> Seq<char>
    decreases n,
{
    if n <= m {
        seq![]
    } else {
        rows_between(values, m, (n - 1) as nat) + if n - 1 < values.len() {
            comparison_row_md(score_axes_spec()[n - 1], values[n - 1])
        } else {
            seq![]
        }
    }
}

proof fn lemma_rows_extend(values: Seq<Option<AxisComparison>>, m: nat, n: nat)
    requires
        m <= n,
    ensures
        comparison_rows_md(values, n) == comparison_rows_md(values, m) + rows_between(values, m, n),
    decreases n,
{
    if n > m {
        lemma_rows_extend(values, m, (n - 1) as nat);
    }
}

/// The score comparison table has a row for every one of the six score axes
/// that both scores hold, written `| <axis label> | <original> | <revised> | <delta> |`.
pub proof fn score_comparison_lists_every_axis(scores: Vec<Option<AxisComparison>>, k: int)
    requires
        0 <= k < 6,
        k < scores@.len(),
        scores@[k] is Some,
    ensures
        ({
            let c = scores@[k]->Some_0;
            let row = "| "@ + axis_label_spec(score_axes_spec()[k]) + " | "@ + c.original@ + " | "@
                + c.revised@ + " | "@ + c.delta@ + " |\n"@;
            let text = compare_scores_md(Some(scores));
            exists|i: int| 0 <= i && i + row.len() <= text.len() && #[trigger] text.subrange(
                i,
                i + row.len(),
            ) == row
        }),
{
    let s = scores@;
    let c = s[k]->Some_0;
    let row = "| "@ + axis_label_spec(score_axes_spec()[k]) + " | "@ + c.original@ + " | "@
        + c.revised@ + " | "@ + c.delta@ + " |\n"@;
    lemma_rows_extend(s, (k + 1) as nat, 6);
    let rest = rows_between(s, (k + 1) as nat, 6);
    assert(comparison_rows_md(s, (k + 1) as nat) == comparison_rows_md(s, k as nat) + row);
    let head = "## Score Comparison\n\n| Axis | Original | Revised | \u{394} |\n|------|----------|---------|---|\n"@;
    let before = head + comparison_rows_md(s, k as nat);
    let text = compare_scores_md(Some(scores));
    assert(text == before + row + (rest + seq!['\n']));
    let i = before.len() as int;
    assert(text.subrange(i, i + row.len()) =~= row);
}

/// The score rows of the axes from `m` up to `n`.
spec fn score_rows_between(values: Seq<Option<String>>, m: nat, n: nat) -> Seq<char>
    decreases n,
{
    if n <= m {
        seq![]
    } else {
        score_rows_between(values, m, (n - 1) as nat) + if n - 1 < values.len() {
            score_row_md(score_axes_spec()[n - 1], values[n - 1])
        } else {
            seq![]
        }
    }
}

proof fn lemma_score_rows_extend(values: Seq<Option<String>>, m: nat, n: nat)
    requires
        m <= n,
    ensures
        score_rows_md(values, n) == score_rows_md(values, m) + score_rows_between(values, m, n),
    decreases n,
{
    if n > m {
        lemma_score_rows_extend(values, m, (n - 1) as nat);
    }
}

/// The scores table of an analysis report has a row for every one of the six
/// score axes that the score holds as a number, written `| <axis label> | <value> |`.
pub proof fn score_table_lists_every_axis(v: AnalyzeView, k: int)
    requires
        v.score is Some,
        0 <= k < 6,
        k < v.score->Some_0@.len(),
        v.score->Some_0@[k] is Some,
    ensures
        ({
            let row = "| "@ + axis_label_spec(score_axes_spec()[k]) + " | "@ + v.score->Some_0@[k]->Some_0@
                + " |\n"@;
            let text = analyze_md(v);
            exists|i: int| 0 <= i && i + row.len() <= text.len() && #[trigger] text.subrange(
                i,
                i + row.len(),
            ) == row
        }),
{
    let s = v.score->Some_0@;
    let row = "| "@ + axis_label_spec(score_axes_spec()[k]) + " | "@ + s[k]->Some_0@ + " |\n"@;
    lemma_score_rows_extend(s, (k + 1) as nat, 6);
    let rest = score_rows_between(s, (k + 1) as nat, 6);
    assert(score_rows_md(s, (k + 1) as nat) == score_rows_md(s, k as nat) + row);
    let before = "# Prose Analysis\n\n"@ + "## Scores\n\n| Axis | Score |\n|------|-------|\n"@ + score_rows_md(
        s,
        k as nat,
    );
    let after = rest + seq!['\n'] + match v.diagnostics {
        Some(ds) => "## Diagnostics ("@ + decimal(ds@.len()) + " issues)\n\n"@ + groups_md(ds@, 5),
        None => seq![],
    } + "---\n*Generated by [ironprose](https://ironprose.com) \u{b7} deterministic craft analyzers*\n"@;
    let text = analyze_md(v);
    assert(text =~= before + row + after);
    let i = before.len() as int;
    assert(text.subrange(i, i + row.len()) =~= row);
}

} // verus!
