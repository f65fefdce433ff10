//! Terminal rendering of API responses: which lines go to standard output and
//! which to standard error, in order.
use vstd::prelude::*;
use crate::output::{display_line, text_or, DiagnosticView};
use crate::text::{decimal, push_char, push_decimal};

verus! {

/// The stream a line is written to.
pub enum Stream {
    Stdout,
    Stderr,
}

/// One line of terminal output (without its line break).
pub struct OutputLine {
    pub stream: Stream,
    pub text: String,
}

/// A row of a `rules` array, read as a list-rules entry or an insights entry.
pub struct RuleRowView {
    /// `name`, when it is a string (list-rules).
    pub name: Option<String>,
    /// `category`, when it is a string (list-rules).
    pub category: Option<String>,
    /// `rule`, when it is a string (insights).
    pub rule: Option<String>,
    /// Whether the row has a `total_ratings` field at all.
    pub has_total_ratings: bool,
    /// `total_ratings`, when it is an integer.
    pub total_ratings: Option<i64>,
    /// `helpful`, when it is an integer.
    pub helpful: Option<i64>,
    /// `not_helpful`, when it is an integer.
    pub not_helpful: Option<i64>,
    /// `false_positive`, when it is an integer.
    pub false_positive: Option<i64>,
    /// `precision_proxy` written with two decimals, when it is a number.
    pub precision: Option<String>,
}

/// A response as the terminal renderer reads it.
pub struct TextView {
    /// The top-level `rules` array, when present.
    pub rules: Option<Vec<RuleRowView>>,
    /// The top-level `total`, when it is a non-negative integer.
    pub total: Option<u64>,
    /// The `diagnostics` array, when present.
    pub diagnostics: Option<Vec<DiagnosticView>>,
    /// The `score` value written as pretty JSON, when present.
    pub score_json: Option<String>,
    /// Whether any of `fixed`, `introduced`, `persistent` is present.
    pub has_compare_keys: bool,
    /// The `fixed` array (empty when absent or not an array).
    pub fixed: Vec<DiagnosticView>,
    /// The `introduced` array (empty when absent or not an array).
    pub introduced: Vec<DiagnosticView>,
    /// The `persistent` array (empty when absent or not an array).
    pub persistent: Vec<DiagnosticView>,
    /// Whether both `original_score` and `revised_score` are present.
    pub has_both_scores: bool,
    /// One line per key of the original score, showing its change, when both
    /// scores are objects.
    pub score_delta_lines: Vec<String>,
}

/// An output line as its stream and characters.
pub open spec fn line_view(l: OutputLine) -> (Stream, Seq<char>) {
    (l.stream, l.text@)
}

/// Output lines as streams and characters.
pub open spec fn lines_view(ls: Seq<OutputLine>) -> Seq<(Stream, Seq<char>)> {
    ls.map_values(|l: OutputLine| line_view(l))
}

/// Decimal rendering of a signed integer.
pub open spec fn signed_decimal(v: int) -> Seq<char> {
    if v < 0 {
        seq!['-'] + decimal((-v) as nat)
    } else {
        decimal(v as nat)
    }
}

fn push_signed_decimal(out: &mut String, v: i64)
    ensures
        final(out)@ == old(out)@ + signed_decimal(v as int),
{
    if v < 0 {
        push_char(out, '-');
        let m: i128 = -(v as i128);
        push_decimal(out, m as u64);
    } else {
        push_decimal(out, v as u64);
    }
}

fn text_or_exec(o: &Option<String>, dflt: &str) -> (r: String)
    ensures
        r@ == text_or(*o, dflt@),
{
    match o {
        Some(s) => s.clone(),
        None => String::from_str(dflt),
    }
}

/// An optional integer, 0 when absent.
pub open spec fn int_or_zero(o: Option<i64>) -> int {
    match o {
        Some(v) => v as int,
        None => 0,
    }
}

/// One insights row: `  rule: N rating(s)  helpful=..  not_helpful=..  false_positive=..  precision=..`.
pub open spec fn insights_row(r: RuleRowView) -> Seq<char> {
    "  "@ + text_or(r.rule, "?"@) + ": "@ + signed_decimal(int_or_zero(r.total_ratings))
        + " rating(s)  helpful="@ + signed_decimal(int_or_zero(r.helpful)) + "  not_helpful="@
        + signed_decimal(int_or_zero(r.not_helpful)) + "  false_positive="@ + signed_decimal(
        int_or_zero(r.false_positive),
    ) + "  precision="@ + text_or(r.precision, "0.00"@)
}

/// One list-rules row: `name  [category]`.
pub open spec fn rule_row(r: RuleRowView) -> Seq<char> {
    text_or(r.name, "?"@) + "  ["@ + text_or(r.category, "?"@) + "]"@
}

/// Lines for every row, made by `f`, on `stream`.
pub open spec fn rows_lines(
    rs: Seq<RuleRowView>,
    f: spec_fn(RuleRowView) -> Seq<char>,
    stream: Stream,
) -> Seq<(Stream, Seq<char>)> {
    rs.map_values(|r: RuleRowView| (stream, f(r)))
}

/// The full diagnostic line of an analyze response.
pub open spec fn diagnostic_line(d: DiagnosticView) -> Seq<char> {
    "  ["@ + text_or(d.severity, "?"@) + "] L"@ + decimal(display_line(d.start_line)) + ": "@
        + text_or(d.message, "?"@) + " ("@ + text_or(d.rule, "?"@) + ")"@ + match d.source_type {
        Some(st) => " ["@ + st@ + " "@ + text_or(d.confidence, "1.00"@) + "]"@,
        None => seq![],
    } + match d.id {
        Some(i) => " [id:"@ + i@ + "]"@,
        None => seq![],
    }
}

/// The short diagnostic line of a compare section.
pub open spec fn short_diagnostic_line(d: DiagnosticView) -> Seq<char> {
    "  ["@ + text_or(d.severity, "?"@) + "] L"@ + decimal(display_line(d.start_line)) + ": "@
        + text_or(d.message, "?"@) + " ("@ + text_or(d.rule, "?"@) + ")"@
}

/// Some diagnostic carries an `id` field.
pub open spec fn any_has_id(ds: Seq<DiagnosticView>) -> bool {
    exists|i: int| 0 <= i < ds.len() && #[trigger] ds[i].has_id
}

/// The hint printed when diagnostics can be rated.
pub open spec fn rate_hint() -> Seq<char> {
    "\nRate diagnostics: ironprose rate --rule <rule> --rating helpful|not_helpful|false_positive --diagnostic-id <id>"@
}

/// The lines for the diagnostics of an analyze response.
pub open spec fn diagnostics_lines(ds: Seq<DiagnosticView>) -> Seq<(Stream, Seq<char>)> {
    ds.map_values(|d: DiagnosticView| (Stream::Stderr, diagnostic_line(d))) + seq![
        (Stream::Stderr, "\n"@ + decimal(ds.len()) + " diagnostic(s)"@),
    ] + if any_has_id(ds) {
        seq![(Stream::Stderr, rate_hint())]
    } else {
        seq![]
    }
}

/// The lines of one compare section.
pub open spec fn section_lines(label: Seq<char>, ds: Seq<DiagnosticView>) -> Seq<(Stream, Seq<char>)> {
    if ds.len() == 0 {
        seq![(Stream::Stderr, label + ": (none)"@)]
    } else {
        seq![(Stream::Stderr, label + ": "@ + decimal(ds.len()) + " diagnostic(s)"@)]
            + ds.map_values(|d: DiagnosticView| (Stream::Stderr, short_diagnostic_line(d)))
    }
}

/// The lines of the compare part of a response.
pub open spec fn compare_lines(v: TextView) -> Seq<(Stream, Seq<char>)> {
    if v.has_compare_keys {
        section_lines("Fixed"@, v.fixed@) + section_lines("Introduced"@, v.introduced@)
            + section_lines("Persistent"@, v.persistent@) + if v.has_both_scores {
            seq![(Stream::Stderr, "\nScore delta (original \u{2192} revised):"@)]
                + v.score_delta_lines@.map_values(|s: String| (Stream::Stderr, s@))
        } else {
            seq![]
        }
    } else {
        seq![]
    }
}

/// The lines printed for a response, in order, with their streams.
pub open spec fn text_lines(v: TextView) -> Seq<(Stream, Seq<char>)> {
    match v.rules {
        Some(rs) => if rs@.len() > 0 && rs@[0].has_total_ratings {
            seq![
                (Stream::Stdout, "Insights \u{2014} "@ + decimal(
                    match v.total {
                        Some(t) => t as nat,
                        None => 0,
                    },
                ) + " rule(s) with feedback\n"@),
            ] + rows_lines(rs@, |r: RuleRowView| insights_row(r), Stream::Stdout)
        } else {
            rows_lines(rs@, |r: RuleRowView| rule_row(r), Stream::Stdout) + seq![
                (Stream::Stderr, "\n"@ + decimal(rs@.len()) + " rule(s)"@),
            ]
        },
        None => (match v.diagnostics {
            Some(ds) => diagnostics_lines(ds@),
            None => seq![],
        }) + (match v.score_json {
            Some(j) => seq![(Stream::Stdout, j@)],
            None => seq![],
        }) + compare_lines(v),
    }
}

fn emit(out: &mut Vec<OutputLine>, stream: Stream, text: String)
    ensures
        lines_view(final(out)@) == lines_view(old(out)@).push((stream, text@)),
{
    let ghost before = out@;
    out.push(OutputLine { stream, text });
    assert(lines_view(out@) =~= lines_view(before).push((stream, text@)));
}

fn insights_row_exec(r: &RuleRowView) -> (s: String)
    ensures
        s@ == insights_row(*r),
{
    let mut s = String::from_str("  ");
    let name = text_or_exec(&r.rule, "?");
    s.append(name.as_str());
    s.append(": ");
    push_signed_decimal(&mut s, match r.total_ratings { Some(v) => v, None => 0 });
    s.append(" rating(s)  helpful=");
    push_signed_decimal(&mut s, match r.helpful { Some(v) => v, None => 0 });
    s.append("  not_helpful=");
    push_signed_decimal(&mut s, match r.not_helpful { Some(v) => v, None => 0 });
    s.append("  false_positive=");
    push_signed_decimal(&mut s, match r.false_positive { Some(v) => v, None => 0 });
    s.append("  precision=");
    let p = text_or_exec(&r.precision, "0.00");
    s.append(p.as_str());
    s
}

fn rule_row_exec(r: &RuleRowView) -> (s: String)
    ensures
        s@ == rule_row(*r),
{
    let mut s = text_or_exec(&r.name, "?");
    s.append("  [");
    let c = text_or_exec(&r.category, "?");
    s.append(c.as_str());
    s.append("]");
    s
}

fn diagnostic_line_exec(d: &DiagnosticView) -> (s: String)
    ensures
        s@ == diagnostic_line(*d),
{
    let mut s = short_diagnostic_line_exec(d);
    match &d.source_type {
        Some(st) => {
            s.append(" [");
            s.append(st.as_str());
            s.append(" ");
            let c = text_or_exec(&d.confidence, "1.00");
            s.append(c.as_str());
            s.append("]");
        },
        None => {},
    }
    match &d.id {
        Some(i) => {
            s.append(" [id:");
            s.append(i.as_str());
            s.append("]");
        },
        None => {},
    }
    s
}

fn short_diagnostic_line_exec(d: &DiagnosticView) -> (s: String)
    ensures
        s@ == short_diagnostic_line(*d),
{
    let mut s = String::from_str("  [");
    let sev = text_or_exec(&d.severity, "?");
    s.append(sev.as_str());
    s.append("] L");
    let l = match d.start_line {
        Some(l) => l,
        None => 0,
    };
    push_decimal(&mut s, l.saturating_add(1));
    s.append(": ");
    let m = text_or_exec(&d.message, "?");
    s.append(m.as_str());
    s.append(" (");
    let r = text_or_exec(&d.rule, "?");
    s.append(r.as_str());
    s.append(")");
    s
}

fn emit_rules(out: &mut Vec<OutputLine>, rs: &Vec<RuleRowView>, insights: bool)
    ensures
        lines_view(final(out)@) == lines_view(old(out)@) + if insights {
            rows_lines(rs@, |r: RuleRowView| insights_row(r), Stream::Stdout)
        } else {
            rows_lines(rs@, |r: RuleRowView| rule_row(r), Stream::Stdout)
        },
{
    let ghost base = lines_view(out@);
    let ghost f: spec_fn(RuleRowView) -> Seq<char> = if insights {
        |r: RuleRowView| insights_row(r)
    } else {
        |r: RuleRowView| rule_row(r)
    };
    let mut i: usize = 0;
    while i < rs.len()
        invariant
            0 <= i <= rs@.len(),
            lines_view(out@) == base + rows_lines(rs@.take(i as int), f, Stream::Stdout),
            f == (if insights {
                |r: RuleRowView| insights_row(r)
            } else {
                |r: RuleRowView| rule_row(r)
            }),
        decreases rs@.len() - i,
    {
        let text = if insights {
            insights_row_exec(&rs[i])
        } else {
            rule_row_exec(&rs[i])
        };
        assert(text@ == f(rs@[i as int]));
        emit(out, Stream::Stdout, text);
        assert(rows_lines(rs@.take(i + 1), f, Stream::Stdout) =~= rows_lines(
            rs@.take(i as int),
            f,
            Stream::Stdout,
        ).push((Stream::Stdout, f(rs@[i as int]))));
        i = i + 1;
    }
    assert(rs@.take(i as int) == rs@);
}

fn emit_diagnostics(out: &mut Vec<OutputLine>, ds: &Vec<DiagnosticView>)
    ensures
        lines_view(final(out)@) == lines_view(old(out)@) + diagnostics_lines(ds@),
{
    let ghost base = lines_view(out@);
    let mut any_id = false;
    let mut i: usize = 0;
    while i < ds.len()
        invariant
            0 <= i <= ds@.len(),
            lines_view(out@) == base + ds@.take(i as int).map_values(
                |d: DiagnosticView| (Stream::Stderr, diagnostic_line(d)),
            ),
            any_id == any_has_id(ds@.take(i as int)),
        decreases ds@.len() - i,
    {
        let text = diagnostic_line_exec(&ds[i]);
        emit(out, Stream::Stderr, text);
        assert(ds@.take(i + 1).map_values(|d: DiagnosticView| (Stream::Stderr, diagnostic_line(d)))
            =~= ds@.take(i as int).map_values(
            |d: DiagnosticView| (Stream::Stderr, diagnostic_line(d)),
        ).push((Stream::Stderr, diagnostic_line(ds@[i as int]))));
        if ds[i].has_id {
            any_id = true;
        }
        assert(any_id == any_has_id(ds@.take(i + 1))) by {
            if any_has_id(ds@.take(i + 1)) && !any_has_id(ds@.take(i as int)) {
                let k = choose|k: int| 0 <= k < i + 1 && #[trigger] ds@.take(i + 1)[k].has_id;
                if k < i {
                    assert(ds@.take(i as int)[k].has_id);
                }
            }
            if any_has_id(ds@.take(i as int)) {
                let k = choose|k: int| 0 <= k < i && #[trigger] ds@.take(i as int)[k].has_id;
                assert(ds@.take(i + 1)[k].has_id);
            }
            if ds@[i as int].has_id {
                assert(ds@.take(i + 1)[i as int].has_id);
            }
        }
        i = i + 1;
    }
    assert(ds@.take(i as int) == ds@);
    let mut count = String::from_str("\n");
    push_decimal(&mut count, ds.len() as u64);
    count.append(" diagnostic(s)");
    emit(out, Stream::Stderr, count);
    if any_id {
        emit(
            out,
            Stream::Stderr,
            String::from_str(
                "\nRate diagnostics: ironprose rate --rule <rule> --rating helpful|not_helpful|false_positive --diagnostic-id <id>",
            ),
        );
    }
}

fn emit_section(out: &mut Vec<OutputLine>, label: &str, ds: &Vec<DiagnosticView>)
    ensures
        lines_view(final(out)@) == lines_view(old(out)@) + section_lines(label@, ds@),
{
    let ghost base = lines_view(out@);
    if ds.len() == 0 {
        let mut t = String::from_str(label);
        t.append(": (none)");
        emit(out, Stream::Stderr, t);
        return;
    }
    let mut t = String::from_str(label);
    t.append(": ");
    push_decimal(&mut t, ds.len() as u64);
    t.append(" diagnostic(s)");
    emit(out, Stream::Stderr, t);
    let ghost head = lines_view(out@);
    let mut i: usize = 0;
    while i < ds.len()
        invariant
            0 <= i <= ds@.len(),
            lines_view(out@) == head + ds@.take(i as int).map_values(
                |d: DiagnosticView| (Stream::Stderr, short_diagnostic_line(d)),
            ),
        decreases ds@.len() - i,
    {
        let text = short_diagnostic_line_exec(&ds[i]);
        emit(out, Stream::Stderr, text);
        assert(ds@.take(i + 1).map_values(
            |d: DiagnosticView| (Stream::Stderr, short_diagnostic_line(d)),
        ) =~= ds@.take(i as int).map_values(
            |d: DiagnosticView| (Stream::Stderr, short_diagnostic_line(d)),
        ).push((Stream::Stderr, short_diagnostic_line(ds@[i as int]))));
        i = i + 1;
    }
    assert(ds@.take(i as int) == ds@);
}

fn emit_compare(out: &mut Vec<OutputLine>, v: &TextView)
    ensures
        lines_view(final(out)@) == lines_view(old(out)@) + compare_lines(*v),
{
    if !v.has_compare_keys {
        return;
    }
    emit_section(out, "Fixed", &v.fixed);
    emit_section(out, "Introduced", &v.introduced);
    emit_section(out, "Persistent", &v.persistent);
    if v.has_both_scores {
        emit(out, Stream::Stderr, String::from_str("\nScore delta (original \u{2192} revised):"));
        let ghost head = lines_view(out@);
        let mut i: usize = 0;
        while i < v.score_delta_lines.len()
            invariant
                0 <= i <= v.score_delta_lines@.len(),
                lines_view(out@) == head + v.score_delta_lines@.take(i as int).map_values(
                    |s: String| (Stream::Stderr, s@),
                ),
            decreases v.score_delta_lines@.len() - i,
        {
            let text = v.score_delta_lines[i].clone();
            emit(out, Stream::Stderr, text);
            assert(v.score_delta_lines@.take(i + 1).map_values(|s: String| (Stream::Stderr, s@))
                =~= v.score_delta_lines@.take(i as int).map_values(
                |s: String| (Stream::Stderr, s@),
            ).push((Stream::Stderr, v.score_delta_lines@[i as int]@)));
            i = i + 1;
        }
        assert(v.score_delta_lines@.take(i as int) == v.score_delta_lines@);
    }
}

/// Render a response for the terminal: list-rules and insights rows go to
/// standard output; diagnostics, counts and compare sections go to standard
/// error; the score, as JSON, goes to standard output.
#[verifier::spinoff_prover]
pub fn render_text(v: &TextView) -> (r: Vec<OutputLine>)
    ensures
        lines_view(r@) == text_lines(*v),
{
    let mut out: Vec<OutputLine> = Vec::new();
    assert(lines_view(out@) =~= Seq::<(Stream, Seq<char>)>::empty());
    match &v.rules {
        Some(rs) => {
            if rs.len() > 0 && rs[0].has_total_ratings {
                let mut head = String::from_str("Insights \u{2014} ");
                push_decimal(&mut head, match v.total { Some(t) => t, None => 0 });
                head.append(" rule(s) with feedback\n");
                emit(&mut out, Stream::Stdout, head);
                emit_rules(&mut out, rs, true);
            } else {
                emit_rules(&mut out, rs, false);
                let mut tail = String::from_str("\n");
                push_decimal(&mut tail, rs.len() as u64);
                tail.append(" rule(s)");
                emit(&mut out, Stream::Stderr, tail);
            }
        },
        None => {
            match &v.diagnostics {
                Some(ds) => emit_diagnostics(&mut out, ds),
                None => {},
            }
            match &v.score_json {
                Some(j) => emit(&mut out, Stream::Stdout, j.clone()),
                None => {},
            }
            emit_compare(&mut out, v);
        },
    }
    out
}

/// The heading line of a compare section of `n` diagnostics.
pub open spec fn section_heading(label: Seq<char>, n: nat) -> Seq<char> {
    if n == 0 {
        label + ": (none)"@
    } else {
        label + ": "@ + decimal(n) + " diagnostic(s)"@
    }
}

proof fn lemma_section_shape(label: Seq<char>, ds: Seq<DiagnosticView>)
    ensures
        section_lines(label, ds).len() == 1 + ds.len(),
        section_lines(label, ds)[0] == (Stream::Stderr, section_heading(label, ds.len())),
        forall|i: int|
            0 <= i < ds.len() ==> #[trigger] section_lines(label, ds)[1 + i] == (
                Stream::Stderr,
                short_diagnostic_line(ds[i]),
            ),
{
}

/// In the terminal output of a compare response, each section lists exactly
/// the diagnostics of its own array, in order: under the `Fixed` heading those
/// of `fixed`, then under `Introduced` those of `introduced`, then under
/// `Persistent` those of `persistent`, all on standard error.
pub proof fn compare_sections_list_their_arrays(v: TextView)
    requires
        v.rules is None,
        v.has_compare_keys,
    ensures
        ({
            let l = text_lines(v);
            let nf = v.fixed@.len() as int;
            let ni = v.introduced@.len() as int;
            let np = v.persistent@.len() as int;
            exists|a: int|
                #![trigger l[a]]
                0 <= a && a + 3 + nf + ni + np <= l.len() && l[a] == (Stream::Stderr, section_heading(
                    "Fixed"@,
                    nf as nat,
                )) && (forall|i: int|
                    0 <= i < nf ==> l[a + 1 + i] == (Stream::Stderr, short_diagnostic_line(
                        #[trigger] v.fixed@[i],
                    ))) && l[a + 1 + nf] == (Stream::Stderr, section_heading(
                    "Introduced"@,
                    ni as nat,
                )) && (forall|i: int|
                    0 <= i < ni ==> l[a + 2 + nf + i] == (Stream::Stderr, short_diagnostic_line(
                        #[trigger] v.introduced@[i],
                    ))) && l[a + 2 + nf + ni] == (Stream::Stderr, section_heading(
                    "Persistent"@,
                    np as nat,
                )) && (forall|i: int|
                    0 <= i < np ==> l[a + 3 + nf + ni + i] == (Stream::Stderr, short_diagnostic_line(
                        #[trigger] v.persistent@[i],
                    )))
        }),
{
    let l = text_lines(v);
    let pre = (match v.diagnostics {
        Some(ds) => diagnostics_lines(ds@),
        None => seq![],
    }) + (match v.score_json {
        Some(j) => seq![(Stream::Stdout, j@)],
        None => seq![],
    });
    let s1 = section_lines("Fixed"@, v.fixed@);
    let s2 = section_lines("Introduced"@, v.introduced@);
    let s3 = section_lines("Persistent"@, v.persistent@);
    let tail = if v.has_both_scores {
        seq![(Stream::Stderr, "\nScore delta (original \u{2192} revised):"@)]
            + v.score_delta_lines@.map_values(|s: String| (Stream::Stderr, s@))
    } else {
        seq![]
    };
    assert(l == pre + (s1 + s2 + s3 + tail));
    lemma_section_shape("Fixed"@, v.fixed@);
    lemma_section_shape("Introduced"@, v.introduced@);
    lemma_section_shape("Persistent"@, v.persistent@);
    let nf = v.fixed@.len() as int;
    let ni = v.introduced@.len() as int;
    let np = v.persistent@.len() as int;
    let a = pre.len() as int;
    assert(l[a] == s1[0]);
    assert forall|i: int| 0 <= i < nf implies l[a + 1 + i] == (Stream::Stderr, short_diagnostic_line(
        #[trigger] v.fixed@[i],
    )) by {
        assert(l[a + 1 + i] == s1[1 + i]);
    }
    assert(l[a + 1 + nf] == s2[0]);
    assert forall|i: int| 0 <= i < ni implies l[a + 2 + nf + i] == (Stream::Stderr, short_diagnostic_line(
        #[trigger] v.introduced@[i],
    )) by {
        assert(l[a + 2 + nf + i] == s2[1 + i]);
    }
    assert(l[a + 2 + nf + ni] == s3[0]);
    assert forall|i: int| 0 <= i < np implies l[a + 3 + nf + ni + i] == (Stream::Stderr, short_diagnostic_line(
        #[trigger] v.persistent@[i],
    )) by {
        assert(l[a + 3 + nf + ni + i] == s3[1 + i]);
    }
}

} // verus!
