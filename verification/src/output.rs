//! Rendering of API responses for people: terminal text and Markdown reports.
//!
//! The renderers read a response through plain views of its parts; numbers that
//! the API sends as floating point arrive already written with two decimals.
use vstd::prelude::*;
use crate::foreign::{lowercase, to_lowercase_exec};
use crate::text::{decimal, push_char, push_decimal, str_eq};

verus! {

/// A diagnostic as the renderers read it from an API response.
pub struct DiagnosticView {
    /// `rule`, when it is a string.
    pub rule: Option<String>,
    /// `severity`, when it is a string.
    pub severity: Option<String>,
    /// `message`, when it is a string.
    pub message: Option<String>,
    /// `start_line`, when it is a non-negative integer (0-indexed).
    pub start_line: Option<u64>,
    /// `source_type`, when it is a string.
    pub source_type: Option<String>,
    /// `confidence` written with two decimals, when it is a number.
    pub confidence: Option<String>,
    /// `id`, when it is a string.
    pub id: Option<String>,
    /// Whether the diagnostic has an `id` field at all.
    pub has_id: bool,
}

/// The characters of an optional string, or `dflt`.
pub open spec fn text_or(o: Option<String>, dflt: Seq<char>) -> Seq<char> {
    match o {
        Some(s) => s@,
        None => dflt,
    }
}

fn text_or_exec(o: &Option<String>, dflt: &str) -> (r: String)
    ensures
        r@ == text_or(*o, dflt@),
{
    match o {
        Some(s) => s.clone(),
        None => String::from_str(dflt),
    }
}

/// How one character is written in Markdown.
pub open spec fn escape_md_char(c: char) -> Seq<char> {
    if c == '\\' {
        seq!['\\', '\\']
    } else if c == '|' {
        seq!['\\', '|']
    } else if c == '`' {
        seq!['\\', '`']
    } else if c == '<' {
        "&lt;"@
    } else if c == '>' {
        "&gt;"@
    } else if c == '\n' {
        seq![' ']
    } else if c == '\r' {
        seq![]
    } else {
        seq![c]
    }
}

/// API-derived text made safe for interpolation into Markdown.
pub open spec fn escape_md_spec(s: Seq<char>) -> Seq<char>
    decreases s.len(),
{
    if s.len() == 0 {
        seq![]
    } else {
        escape_md_spec(s.drop_last()) + escape_md_char(s.last())
    }
}

proof fn lemma_escape_md_safe(s: Seq<char>)
    ensures
        !escape_md_spec(s).contains('\n'),
        !escape_md_spec(s).contains('\r'),
        !escape_md_spec(s).contains('<'),
        !escape_md_spec(s).contains('>'),
    decreases s.len(),
{
    reveal_strlit("&lt;");
    reveal_strlit("&gt;");
    if s.len() > 0 {
        lemma_escape_md_safe(s.drop_last());
        let a = escape_md_spec(s.drop_last());
        let b = escape_md_char(s.last());
        assert forall|k: int| 0 <= k < (a + b).len() implies (a + b)[k] != '\n' && (a + b)[k]
            != '\r' && (a + b)[k] != '<' && (a + b)[k] != '>' by {
            if k < a.len() {
                assert((a + b)[k] == a[k]);
                assert(a.contains(a[k]));
            }
        }
    }
}

/// Text that cannot break a Markdown table or inline code: read from the start,
/// it is a run of plain characters and escape pairs, where every backslash
/// opens a pair with the character after it (a backslash, a pipe or a
/// backtick) and no pipe, backtick, line break or angle bracket stands alone.
pub open spec fn md_inert(s: Seq<char>) -> bool
    decreases s.len(),
{
    if s.len() == 0 {
        true
    } else if s[0] == '\\' {
        s.len() >= 2 && (s[1] == '\\' || s[1] == '|' || s[1] == '`') && md_inert(s.skip(2))
    } else {
        s[0] != '|' && s[0] != '`' && s[0] != '\n' && s[0] != '\r' && s[0] != '<' && s[0] != '>'
            && md_inert(s.skip(1))
    }
}

proof fn lemma_md_inert_concat(a: Seq<char>, b: Seq<char>)
    requires
        md_inert(a),
        md_inert(b),
    ensures
        md_inert(a + b),
    decreases a.len(),
{
    if a.len() > 0 {
        if a[0] == '\\' {
            lemma_md_inert_concat(a.skip(2), b);
            assert((a + b).skip(2) =~= a.skip(2) + b);
            assert((a + b)[0] == a[0] && (a + b)[1] == a[1]);
        } else {
            lemma_md_inert_concat(a.skip(1), b);
            assert((a + b).skip(1) =~= a.skip(1) + b);
            assert((a + b)[0] == a[0]);
        }
    } else {
        assert(a + b =~= b);
    }
}

/// A character that needs no escape.
spec fn md_plain(c: char) -> bool {
    c != '\\' && c != '|' && c != '`' && c != '\n' && c != '\r' && c != '<' && c != '>'
}

proof fn lemma_plain_inert(s: Seq<char>)
    requires
        forall|i: int| 0 <= i < s.len() ==> md_plain(#[trigger] s[i]),
    ensures
        md_inert(s),
    decreases s.len(),
{
    if s.len() > 0 {
        let t = s.skip(1);
        assert forall|i: int| 0 <= i < t.len() implies md_plain(#[trigger] t[i]) by {
            assert(t[i] == s[i + 1]);
        }
        lemma_plain_inert(t);
        assert(md_plain(s[0]));
    }
}

proof fn lemma_escape_md_inert(s: Seq<char>)
    ensures
        md_inert(escape_md_spec(s)),
    decreases s.len(),
{
    reveal_strlit("&lt;");
    reveal_strlit("&gt;");
    if s.len() > 0 {
        lemma_escape_md_inert(s.drop_last());
        let c = s.last();
        let piece = escape_md_char(c);
        if c == '\\' || c == '|' || c == '`' {
            assert(piece.skip(2) =~= Seq::<char>::empty());
            assert(md_inert(piece.skip(2)));
            assert(md_inert(piece));
        } else {
            assert forall|i: int| 0 <= i < piece.len() implies md_plain(#[trigger] piece[i]) by {}
            lemma_plain_inert(piece);
        }
        lemma_md_inert_concat(escape_md_spec(s.drop_last()), piece);
    }
}

/// Escape API-derived text for safe interpolation into Markdown.
///
/// Guards against broken tables (pipes), inline code corruption (backticks),
/// HTML injection, and multi-line break-out (newlines): the result holds no
/// line break and no angle bracket.
#[verifier::spinoff_prover]
pub fn escape_md(value: &str) -> (r: String)
    ensures
        r@ == escape_md_spec(value@),
        !r@.contains('\n'),
        !r@.contains('\r'),
        !r@.contains('<'),
        !r@.contains('>'),
        md_inert(r@),
{
    let chars = crate::text::chars_of(value);
    let mut out = String::new();
    let mut i: usize = 0;
    while i < chars.len()
        invariant
            0 <= i <= chars@.len(),
            chars@ == value@,
            out@ == escape_md_spec(value@.take(i as int)),
        decreases chars@.len() - i,
    {
        let c = chars[i];
        assert(value@.take(i + 1).drop_last() == value@.take(i as int));
        if c == '\\' {
            push_char(&mut out, '\\');
            push_char(&mut out, '\\');
        } else if c == '|' {
            push_char(&mut out, '\\');
            push_char(&mut out, '|');
        } else if c == '`' {
            push_char(&mut out, '\\');
            push_char(&mut out, '`');
        } else if c == '<' {
            out.append("&lt;");
        } else if c == '>' {
            out.append("&gt;");
        } else if c == '\n' {
            push_char(&mut out, ' ');
        } else if c == '\r' {
        } else {
            push_char(&mut out, c);
        }
        assert(out@ == escape_md_spec(value@.take(i as int)) + escape_md_char(c));
        i = i + 1;
    }
    assert(value@.take(i as int) == value@);
    proof {
        lemma_escape_md_safe(value@);
        lemma_escape_md_inert(value@);
    }
    out
}

/// Severity ordering for grouping diagnostics (lower = more severe).
pub open spec fn severity_rank_spec(s: Seq<char>) -> u8 {
    if s == "error"@ {
        0
    } else if s == "warning"@ {
        1
    } else if s == "information"@ {
        2
    } else if s == "hint"@ {
        3
    } else {
        4
    }
}

/// Severity ordering for grouping diagnostics (lower = more severe).
pub fn severity_rank(s: &str) -> (r: u8)
    ensures
        r == severity_rank_spec(s@),
{
    if str_eq(s, "error") {
        0
    } else if str_eq(s, "warning") {
        1
    } else if str_eq(s, "information") {
        2
    } else if str_eq(s, "hint") {
        3
    } else {
        4
    }
}

/// The known severities are ranked from most to least severe, and every other
/// severity ranks after them.
pub proof fn severity_order_law(other: Seq<char>)
    requires
        other != "error"@,
        other != "warning"@,
        other != "information"@,
        other != "hint"@,
    ensures
        severity_rank_spec("error"@) < severity_rank_spec("warning"@),
        severity_rank_spec("warning"@) < severity_rank_spec("information"@),
        severity_rank_spec("information"@) < severity_rank_spec("hint"@),
        severity_rank_spec("hint"@) < severity_rank_spec(other),
{
    reveal_strlit("error");
    reveal_strlit("warning");
    reveal_strlit("information");
    reveal_strlit("hint");
    assert("warning"@.len() == 7);
    assert("error"@.len() == 5);
    assert("information"@.len() == 11);
    assert("hint"@.len() == 4);
    assert("warning"@ != "error"@);
    assert("information"@ != "error"@);
    assert("information"@ != "warning"@);
    assert("hint"@ != "error"@);
    assert("hint"@ != "warning"@);
    assert("hint"@ != "information"@);
}

/// Canonical display label for a severity level.
pub open spec fn severity_label_spec(s: Seq<char>) -> Seq<char> {
    if s == "error"@ {
        "Errors"@
    } else if s == "warning"@ {
        "Warnings"@
    } else if s == "information"@ {
        "Info"@
    } else if s == "hint"@ {
        "Hints"@
    } else {
        s
    }
}

/// Canonical display label for a severity level.
pub fn severity_label(s: &str) -> (r: String)
    ensures
        r@ == severity_label_spec(s@),
{
    if str_eq(s, "error") {
        String::from_str("Errors")
    } else if str_eq(s, "warning") {
        String::from_str("Warnings")
    } else if str_eq(s, "information") {
        String::from_str("Info")
    } else if str_eq(s, "hint") {
        String::from_str("Hints")
    } else {
        String::from_str(s)
    }
}

/// Known score axis keys in display order.
pub open spec fn score_axes_spec() -> Seq<Seq<char>> {
    seq![
        "concreteness"@,
        "imagery_density"@,
        "vocabulary_richness"@,
        "sentence_variety"@,
        "dialogue_balance"@,
        "pacing_score"@,
    ]
}

/// Known score axis keys in display order.
pub fn score_axes() -> (r: Vec<&'static str>)
    ensures
        r@.len() == 6,
        forall|i: int| 0 <= i < 6 ==> #[trigger] r@[i]@ == score_axes_spec()[i],
{
    let r = vec![
        "concreteness",
        "imagery_density",
        "vocabulary_richness",
        "sentence_variety",
        "dialogue_balance",
        "pacing_score",
    ];
    r
}

/// Human-readable axis label.
pub open spec fn axis_label_spec(key: Seq<char>) -> Seq<char> {
    if key == "concreteness"@ {
        "Concreteness"@
    } else if key == "imagery_density"@ {
        "Imagery Density"@
    } else if key == "vocabulary_richness"@ {
        "Vocabulary Richness"@
    } else if key == "sentence_variety"@ {
        "Sentence Variety"@
    } else if key == "dialogue_balance"@ {
        "Dialogue Balance"@
    } else if key == "pacing_score"@ {
        "Pacing"@
    } else {
        key
    }
}

/// Human-readable axis label.
pub fn axis_label(key: &str) -> (r: String)
    ensures
        r@ == axis_label_spec(key@),
{
    if str_eq(key, "concreteness") {
        String::from_str("Concreteness")
    } else if str_eq(key, "imagery_density") {
        String::from_str("Imagery Density")
    } else if str_eq(key, "vocabulary_richness") {
        String::from_str("Vocabulary Richness")
    } else if str_eq(key, "sentence_variety") {
        String::from_str("Sentence Variety")
    } else if str_eq(key, "dialogue_balance") {
        String::from_str("Dialogue Balance")
    } else if str_eq(key, "pacing_score") {
        String::from_str("Pacing")
    } else {
        String::from_str(key)
    }
}

/// The 1-based line a diagnostic is shown on (0 when the API gave none, plus
/// one, saturating).
pub open spec fn display_line(start_line: Option<u64>) -> nat {
    let l = match start_line {
        Some(l) => l,
        None => 0,
    };
    if l == u64::MAX {
        l as nat
    } else {
        (l + 1) as nat
    }
}

fn display_line_exec(start_line: Option<u64>) -> (r: u64)
    ensures
        r as nat == display_line(start_line),
{
    let l = match start_line {
        Some(l) => l,
        None => 0,
    };
    l.saturating_add(1)
}

/// A single diagnostic as a Markdown bullet:
/// `- **L24** `rule` — message · source_type · 0.72 confidence`.
pub open spec fn diagnostic_md(d: DiagnosticView) -> Seq<char> {
    "- **L"@ + decimal(display_line(d.start_line)) + "** `"@ + escape_md_spec(
        text_or(d.rule, "?"@),
    ) + "` \u{2014} "@ + escape_md_spec(text_or(d.message, "?"@)) + match d.source_type {
        Some(st) => " \u{b7} "@ + escape_md_spec(lowercase(st@)) + " \u{b7} "@ + text_or(
            d.confidence,
            "1.00"@,
        ) + " confidence"@,
        None => seq![],
    } + seq!['\n']
}

/// Format a single diagnostic as a Markdown bullet, appended to `out`.
pub fn format_diagnostic_md(out: &mut String, d: &DiagnosticView)
    ensures
        final(out)@ == old(out)@ + diagnostic_md(*d),
{
    let rule = text_or_exec(&d.rule, "?");
    let message = text_or_exec(&d.message, "?");
    out.append("- **L");
    push_decimal(out, display_line_exec(d.start_line));
    out.append("** `");
    let er = escape_md(rule.as_str());
    out.append(er.as_str());
    out.append("` \u{2014} ");
    let em = escape_md(message.as_str());
    out.append(em.as_str());
    match &d.source_type {
        Some(st) => {
            let lower = to_lowercase_exec(st.as_str());
            let el = escape_md(lower.as_str());
            let conf = text_or_exec(&d.confidence, "1.00");
            out.append(" \u{b7} ");
            out.append(el.as_str());
            out.append(" \u{b7} ");
            out.append(conf.as_str());
            out.append(" confidence");
        },
        None => {},
    }
    push_char(out, '\n');
}

} // verus!
