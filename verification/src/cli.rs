//! The decisions of the command-line client: where its input comes from and
//! the arguments it sends to the API.
use vstd::prelude::*;
use crate::json::{entries_view, items_view, json_str, jv, push_entry, push_item, Json, JsonSpec};
use crate::text::str_eq;

verus! {

/// Where the text of a command comes from.
#[derive(Debug)]
pub enum InputSource {
    /// The text given on the command line.
    Text(String),
    /// A file, whose path is checked before it is read.
    File(String),
    /// Standard input.
    Stdin,
}

/// Resolve text input from argument, file, or stdin, in that order.
pub fn input_source(text: Option<String>, file: Option<&str>) -> (r: InputSource)
    ensures
        text matches Some(t) ==> (r matches InputSource::Text(s) && s@ == t@),
        text is None ==> (file matches Some(f) ==> (r matches InputSource::File(p) && p@ == f@)),
        text is None && file is None ==> r is Stdin,
{
    match text {
        Some(t) => InputSource::Text(t),
        None => match file {
            Some(f) => InputSource::File(String::from_str(f)),
            None => InputSource::Stdin,
        },
    }
}

/// The refusal of an empty standard input.
pub open spec fn no_input_message() -> Seq<char> {
    "No input provided. Pass text as argument, --file, or pipe to stdin."@
}

/// The text read from standard input, refused when it is empty.
pub fn stdin_input(buf: String) -> (r: Result<String, String>)
    ensures
        buf@.len() > 0 ==> (r matches Ok(t) && t@ == buf@),
        buf@.len() == 0 ==> (r matches Err(m) && m@ == no_input_message()),
{
    if buf.unicode_len() == 0 {
        Err(String::from_str("No input provided. Pass text as argument, --file, or pipe to stdin."))
    } else {
        Ok(buf)
    }
}

/// The arguments of an `analyze` call: the text, then `score_only` when it is
/// set, the rules when some are named, and the minimum severity when one is given.
pub open spec fn analyze_args_spec(
    text: Seq<char>,
    score_only: bool,
    rules: Option<Seq<Seq<char>>>,
    severity_min: Option<Seq<char>>,
) -> JsonSpec {
    let base = seq![("text"@, JsonSpec::Str(text))];
    let a = if score_only {
        base.push(("score_only"@, JsonSpec::Bool(true)))
    } else {
        base
    };
    let b = match rules {
        Some(rs) => a.push(("rules"@, JsonSpec::Array(rs.map_values(|r: Seq<char>| JsonSpec::Str(r))))),
        None => a,
    };
    let c = match severity_min {
        Some(s) => b.push(("severity_min"@, JsonSpec::Str(s))),
        None => b,
    };
    JsonSpec::Object(c)
}

/// The names as a JSON array of strings.
pub fn string_array(names: &Vec<String>) -> (r: Json)
    ensures
        jv(r) == JsonSpec::Array(names@.map_values(|n: String| n@).map_values(|n: Seq<char>| JsonSpec::Str(n))),
{
    let mut items: Vec<Json> = Vec::new();
    assert(items_view(items@) =~= seq![]);
    let mut i: usize = 0;
    while i < names.len()
        invariant
            0 <= i <= names@.len(),
            items_view(items@) == names@.take(i as int).map_values(|n: String| n@).map_values(
                |n: Seq<char>| JsonSpec::Str(n),
            ),
        decreases names@.len() - i,
    {
        push_item(&mut items, json_str(names[i].as_str()));
        assert(names@.take(i + 1).map_values(|n: String| n@).map_values(|n: Seq<char>| JsonSpec::Str(n))
            =~= names@.take(i as int).map_values(|n: String| n@).map_values(
            |n: Seq<char>| JsonSpec::Str(n),
        ).push(JsonSpec::Str(names@[i as int]@)));
        i = i + 1;
    }
    assert(names@.take(i as int) =~= names@);
    Json::Array(items)
}

/// The arguments of an `analyze` call built from the command's options.
pub fn analyze_args(text: &str, score_only: bool, rules: Option<&Vec<String>>, severity_min: Option<&str>) -> (r: Json)
    ensures
        jv(r) == analyze_args_spec(
            text@,
            score_only,
            match rules {
                Some(rs) => Some(rs@.map_values(|n: String| n@)),
                None => None,
            },
            match severity_min {
                Some(s) => Some(s@),
                None => None,
            },
        ),
{
    let mut es: Vec<(String, Json)> = Vec::new();
    assert(entries_view(es@) =~= seq![]);
    push_entry(&mut es, "text", json_str(text));
    assert(entries_view(es@) =~= seq![("text"@, JsonSpec::Str(text@))]);
    if score_only {
        push_entry(&mut es, "score_only", Json::Bool(true));
    }
    match rules {
        Some(rs) => push_entry(&mut es, "rules", string_array(rs)),
        None => {},
    }
    match severity_min {
        Some(s) => push_entry(&mut es, "severity_min", json_str(s)),
        None => {},
    }
    Json::Object(es)
}

/// The arguments of a `compare` call.
pub fn compare_args(original: &str, revised: &str) -> (r: Json)
    ensures
        jv(r) == JsonSpec::Object(
            seq![("original"@, JsonSpec::Str(original@)), ("revised"@, JsonSpec::Str(revised@))],
        ),
{
    let mut es: Vec<(String, Json)> = Vec::new();
    assert(entries_view(es@) =~= seq![]);
    push_entry(&mut es, "original", json_str(original));
    push_entry(&mut es, "revised", json_str(revised));
    assert(entries_view(es@) =~= seq![
        ("original"@, JsonSpec::Str(original@)),
        ("revised"@, JsonSpec::Str(revised@)),
    ]);
    Json::Object(es)
}

/// How a response is shown.
#[derive(Debug)]
pub enum OutputFormat {
    /// Pretty-printed JSON (the default).
    Json,
    /// Terminal-friendly lines.
    Text,
    /// A self-contained Markdown report.
    Markdown,
}

/// The output format named on the command line: `text` and `markdown` name
/// theirs, and any other name gives JSON.
pub fn output_format(name: &str) -> (r: OutputFormat)
    ensures
        name@ == "text"@ ==> r is Text,
        name@ == "markdown"@ ==> r is Markdown,
        name@ != "text"@ && name@ != "markdown"@ ==> r is Json,
{
    proof {
        reveal_strlit("text");
        reveal_strlit("markdown");
        assert("text"@.len() != "markdown"@.len());
    }
    if str_eq(name, "text") {
        OutputFormat::Text
    } else if str_eq(name, "markdown") {
        OutputFormat::Markdown
    } else {
        OutputFormat::Json
    }
}

} // verus!
