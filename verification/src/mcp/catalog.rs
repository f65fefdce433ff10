//! The static list of tools that the stdio MCP server exposes, each with the
//! JSON schema of its input.
//!
//! - Remote proxy tools (matching the remote API's schemas): `analyze`,
//!   `compare`, `rate`, `list_rules`.
//! - Local file tools: `read_file`, `write_file`, `list_files`.
use vstd::prelude::*;
use crate::json::{Json, JsonSpec, jv, entries_get, entries_view, items_view, json_get, json_str, push_entry,
    push_item};

verus! {

/// A tool as the server lists it.
#[derive(Debug)]
pub struct Tool {
    pub name: String,
    pub description: String,
    pub input_schema: Json,
}

/// The mathematical view of a tool.
pub struct ToolSpec {
    pub name: Seq<char>,
    pub description: Seq<char>,
    pub input_schema: JsonSpec,
}

pub open spec fn tool_view(t: Tool) -> ToolSpec {
    ToolSpec { name: t.name@, description: t.description@, input_schema: jv(t.input_schema) }
}

pub open spec fn tools_view(ts: Seq<Tool>) -> Seq<ToolSpec> {
    ts.map_values(|t: Tool| tool_view(t))
}

/// The schema of one property: its JSON type and its description.
pub open spec fn prop(typ: Seq<char>, desc: Seq<char>) -> JsonSpec {
    JsonSpec::Object(
        seq![("type"@, JsonSpec::Str(typ)), ("description"@, JsonSpec::Str(desc))],
    )
}

/// The schema of a property that holds a list of strings.
pub open spec fn string_list_prop(desc: Seq<char>) -> JsonSpec {
    JsonSpec::Object(
        seq![
            ("type"@, JsonSpec::Str("array"@)),
            ("items"@, JsonSpec::Object(seq![("type"@, JsonSpec::Str("string"@))])),
            ("description"@, JsonSpec::Str(desc)),
        ],
    )
}

/// The names of the required properties, as JSON strings.
pub open spec fn required_items(names: Seq<Seq<char>>) -> Seq<JsonSpec> {
    names.map_values(|n: Seq<char>| JsonSpec::Str(n))
}

/// An input schema: an object with the given properties and, where there is
/// a list, the names of the required ones.
pub open spec fn input_schema(
    props: Seq<(Seq<char>, JsonSpec)>,
    required: Option<Seq<Seq<char>>>,
) -> JsonSpec {
    let base = seq![("type"@, JsonSpec::Str("object"@)), ("properties"@, JsonSpec::Object(props))];
    match required {
        Some(names) => JsonSpec::Object(
            base.push(("required"@, JsonSpec::Array(required_items(names)))),
        ),
        None => JsonSpec::Object(base),
    }
}

/// The properties of the input of `analyze`.
pub open spec fn analyze_props() -> Seq<(Seq<char>, JsonSpec)> {
    seq![
        ("text"@, prop("string"@, "The text to analyze."@)),
        ("locale"@, prop("string"@, "Language locale: 'en-us', 'en-gb', or 'en-any' (default)."@)),
        ("rules"@, string_list_prop("Only run these specific rules. If omitted, all rules run."@)),
        ("severity_min"@, prop("string"@, "Minimum severity: 'error', 'warning', 'information', or 'hint'."@)),
        ("score_only"@, prop("boolean"@, "If true, only return scores (no diagnostics/profile)."@)),
        ("config"@, prop("object"@, "Per-request analyzer configuration overrides."@)),
    ]
}

pub open spec fn analyze_tool() -> ToolSpec {
    ToolSpec {
        name: "analyze"@,
        description: "Analyze prose text for style, grammar, and craft issues. Returns diagnostics \
             with severity levels, scores, and an optional style profile."@,
        input_schema: input_schema(
            analyze_props(),
            Some(seq!["text"@]),
        ),
    }
}

/// The properties of the input of `compare`.
pub open spec fn compare_props() -> Seq<(Seq<char>, JsonSpec)> {
    seq![
        ("original"@, prop("string"@, "The original text (before edits)."@)),
        ("revised"@, prop("string"@, "The revised text (after edits)."@)),
        ("locale"@, prop("string"@, "Language locale for spell checking."@)),
        ("config"@, prop("object"@, "Per-request analyzer configuration overrides."@)),
    ]
}

pub open spec fn compare_tool() -> ToolSpec {
    ToolSpec {
        name: "compare"@,
        description: "Compare original and revised text, showing fixed, introduced, and persistent \
             diagnostics plus scores for both versions."@,
        input_schema: input_schema(
            compare_props(),
            Some(seq!["original"@, "revised"@]),
        ),
    }
}

/// The properties of the input of `rate`.
pub open spec fn rate_props() -> Seq<(Seq<char>, JsonSpec)> {
    seq![
        ("rule"@, prop("string"@, "The rule (analyzer) that produced the diagnostic."@)),
        ("rating"@, prop("string"@, "Rating: 'helpful', 'not_helpful', or 'false_positive'."@)),
        ("context"@, prop("string"@, "Optional context about the rating."@)),
        ("diagnostic_id"@, prop("string"@, "Optional diagnostic ID from the analyze response."@)),
    ]
}

pub open spec fn rate_tool() -> ToolSpec {
    ToolSpec {
        name: "rate"@,
        description: "Submit feedback on a diagnostic: 'helpful', 'not_helpful', or 'false_positive'."@,
        input_schema: input_schema(
            rate_props(),
            Some(seq!["rule"@, "rating"@]),
        ),
    }
}

pub open spec fn list_rules_tool() -> ToolSpec {
    ToolSpec {
        name: "list_rules"@,
        description: "List all available analysis rules with their categories."@,
        input_schema: input_schema(seq![], None),
    }
}

/// The properties of the input of `read_file`.
pub open spec fn read_file_props() -> Seq<(Seq<char>, JsonSpec)> {
    seq![
        ("path"@, prop("string"@, "Relative path within the workspace (e.g. 'chapter1.md')."@)),
        ("offset"@, prop("integer"@, "Byte offset to start reading from (default: 0)."@)),
        ("max_bytes"@, prop("integer"@, "Maximum bytes to read (default: 65536, max: 1048576)."@)),
        ("workspace_dir"@, prop("string"@, "Override workspace directory (default: IRONPROSE_WORKSPACE env)."@)),
    ]
}

pub open spec fn read_file_tool() -> ToolSpec {
    ToolSpec {
        name: "read_file"@,
        description: "Read a file from the workspace. Large files are paginated — use offset and \
             max_bytes to page through content. Maximum single read is 1 MB."@,
        input_schema: input_schema(
            read_file_props(),
            Some(seq!["path"@]),
        ),
    }
}

/// The properties of the input of `write_file`.
pub open spec fn write_file_props() -> Seq<(Seq<char>, JsonSpec)> {
    seq![
        ("path"@, prop("string"@, "Relative path within the workspace."@)),
        ("content"@, prop("string"@, "The content to write."@)),
        ("workspace_dir"@, prop("string"@, "Override workspace directory (default: IRONPROSE_WORKSPACE env)."@)),
    ]
}

pub open spec fn write_file_tool() -> ToolSpec {
    ToolSpec {
        name: "write_file"@,
        description: "Write content to a file in the workspace. Creates parent directories as needed. \
             Maximum content size is 1 MB. All writes are logged locally."@,
        input_schema: input_schema(
            write_file_props(),
            Some(seq!["path"@, "content"@]),
        ),
    }
}

/// The properties of the input of `list_files`.
pub open spec fn list_files_props() -> Seq<(Seq<char>, JsonSpec)> {
    seq![
        ("subdirectory"@, prop("string"@, "Optional subdirectory to list (relative to workspace)."@)),
        ("recursive"@, prop("boolean"@, "List files recursively (default: false)."@)),
        ("workspace_dir"@, prop("string"@, "Override workspace directory."@)),
    ]
}

pub open spec fn list_files_tool() -> ToolSpec {
    ToolSpec {
        name: "list_files"@,
        description: "List files in the workspace directory. Skips hidden files/directories."@,
        input_schema: input_schema(
            list_files_props(),
            None,
        ),
    }
}

/// Every tool of the server, in the order in which it lists them.
pub open spec fn tool_catalog() -> Seq<ToolSpec> {
    seq![
        analyze_tool(),
        compare_tool(),
        rate_tool(),
        list_rules_tool(),
        read_file_tool(),
        write_file_tool(),
        list_files_tool(),
    ]
}

fn prop_exec(typ: &str, desc: &str) -> (j: Json)
    ensures
        jv(j) == prop(typ@, desc@),
{
    let mut es: Vec<(String, Json)> = Vec::new();
    assert(entries_view(es@) =~= seq![]);
    push_entry(&mut es, "type", json_str(typ));
    push_entry(&mut es, "description", json_str(desc));
    assert(entries_view(es@) =~= seq![("type"@, JsonSpec::Str(typ@)), ("description"@, JsonSpec::Str(desc@))]);
    Json::Object(es)
}

fn string_list_prop_exec(desc: &str) -> (j: Json)
    ensures
        jv(j) == string_list_prop(desc@),
{
    let mut items: Vec<(String, Json)> = Vec::new();
    assert(entries_view(items@) =~= seq![]);
    push_entry(&mut items, "type", json_str("string"));
    let mut es: Vec<(String, Json)> = Vec::new();
    assert(entries_view(es@) =~= seq![]);
    push_entry(&mut es, "type", json_str("array"));
    push_entry(&mut es, "items", Json::Object(items));
    push_entry(&mut es, "description", json_str(desc));
    assert(entries_view(items@) =~= seq![("type"@, JsonSpec::Str("string"@))]);
    assert(entries_view(es@) =~= seq![
        ("type"@, JsonSpec::Str("array"@)),
        ("items"@, JsonSpec::Object(seq![("type"@, JsonSpec::Str("string"@))])),
        ("description"@, JsonSpec::Str(desc@)),
    ]);
    Json::Object(es)
}

fn required_exec(names: &Vec<&str>) -> (items: Vec<Json>)
    ensures
        items_view(items@) == required_items(names@.map_values(|n: &str| n@)),
{
    let mut items: Vec<Json> = Vec::new();
    assert(items_view(items@) =~= seq![]);
    let mut i: usize = 0;
    while i < names.len()
        invariant
            0 <= i <= names@.len(),
            items_view(items@) == required_items(names@.take(i as int).map_values(|n: &str| n@)),
        decreases names@.len() - i,
    {
        push_item(&mut items, json_str(names[i]));
        assert(required_items(names@.take(i + 1).map_values(|n: &str| n@)) =~= required_items(
            names@.take(i as int).map_values(|n: &str| n@),
        ).push(JsonSpec::Str(names@[i as int]@)));
        i = i + 1;
    }
    assert(names@.take(i as int) =~= names@);
    items
}

fn input_schema_exec(props: Vec<(String, Json)>, required: Option<&Vec<&str>>) -> (j: Json)
    ensures
        jv(j) == input_schema(
            entries_view(props@),
            match required {
                Some(r) => Some(r@.map_values(|n: &str| n@)),
                None => None,
            },
        ),
{
    let mut es: Vec<(String, Json)> = Vec::new();
    assert(entries_view(es@) =~= seq![]);
    push_entry(&mut es, "type", json_str("object"));
    push_entry(&mut es, "properties", Json::Object(props));
    let ghost base = seq![
        ("type"@, JsonSpec::Str("object"@)),
        ("properties"@, JsonSpec::Object(entries_view(props@))),
    ];
    assert(entries_view(es@) =~= base);
    match required {
        Some(r) => {
            let items = required_exec(r);
            push_entry(&mut es, "required", Json::Array(items));
        },
        None => {},
    }
    Json::Object(es)
}

fn tool_exec(name: &str, description: &str, input_schema: Json) -> (t: Tool)
    ensures
        tool_view(t) == (ToolSpec { name: name@, description: description@, input_schema: jv(input_schema) }),
{
    Tool {
        name: String::from_str(name),
        description: String::from_str(description),
        input_schema,
    }
}

fn analyze_tool_exec() -> (t: Tool)
    ensures
        tool_view(t) == analyze_tool(),
{
    let mut props: Vec<(String, Json)> = Vec::new();
    assert(entries_view(props@) =~= seq![]);
    push_entry(&mut props, "text", prop_exec("string", "The text to analyze."));
    push_entry(&mut props, "locale", prop_exec("string", "Language locale: 'en-us', 'en-gb', or 'en-any' (default)."));
    push_entry(&mut props, "rules", string_list_prop_exec("Only run these specific rules. If omitted, all rules run."));
    push_entry(&mut props, "severity_min", prop_exec("string", "Minimum severity: 'error', 'warning', 'information', or 'hint'."));
    push_entry(&mut props, "score_only", prop_exec("boolean", "If true, only return scores (no diagnostics/profile)."));
    push_entry(&mut props, "config", prop_exec("object", "Per-request analyzer configuration overrides."));
    assert(entries_view(props@) =~= analyze_props());
    let required = vec!["text"];
    assert(required@.map_values(|n: &str| n@) =~= seq!["text"@]);
    tool_exec(
        "analyze",
        "Analyze prose text for style, grammar, and craft issues. Returns diagnostics \
             with severity levels, scores, and an optional style profile.",
        input_schema_exec(props, Some(&required)),
    )
}

fn compare_tool_exec() -> (t: Tool)
    ensures
        tool_view(t) == compare_tool(),
{
    let mut props: Vec<(String, Json)> = Vec::new();
    assert(entries_view(props@) =~= seq![]);
    push_entry(&mut props, "original", prop_exec("string", "The original text (before edits)."));
    push_entry(&mut props, "revised", prop_exec("string", "The revised text (after edits)."));
    push_entry(&mut props, "locale", prop_exec("string", "Language locale for spell checking."));
    push_entry(&mut props, "config", prop_exec("object", "Per-request analyzer configuration overrides."));
    assert(entries_view(props@) =~= compare_props());
    let required = vec!["original", "revised"];
    assert(required@.map_values(|n: &str| n@) =~= seq!["original"@, "revised"@]);
    tool_exec(
        "compare",
        "Compare original and revised text, showing fixed, introduced, and persistent \
             diagnostics plus scores for both versions.",
        input_schema_exec(props, Some(&required)),
    )
}

fn rate_tool_exec() -> (t: Tool)
    ensures
        tool_view(t) == rate_tool(),
{
    let mut props: Vec<(String, Json)> = Vec::new();
    assert(entries_view(props@) =~= seq![]);
    push_entry(&mut props, "rule", prop_exec("string", "The rule (analyzer) that produced the diagnostic."));
    push_entry(&mut props, "rating", prop_exec("string", "Rating: 'helpful', 'not_helpful', or 'false_positive'."));
    push_entry(&mut props, "context", prop_exec("string", "Optional context about the rating."));
    push_entry(&mut props, "diagnostic_id", prop_exec("string", "Optional diagnostic ID from the analyze response."));
    assert(entries_view(props@) =~= rate_props());
    let required = vec!["rule", "rating"];
    assert(required@.map_values(|n: &str| n@) =~= seq!["rule"@, "rating"@]);
    tool_exec(
        "rate",
        "Submit feedback on a diagnostic: 'helpful', 'not_helpful', or 'false_positive'.",
        input_schema_exec(props, Some(&required)),
    )
}

fn list_rules_tool_exec() -> (t: Tool)
    ensures
        tool_view(t) == list_rules_tool(),
{
    let props: Vec<(String, Json)> = Vec::new();
    assert(entries_view(props@) =~= seq![]);
    tool_exec(
        "list_rules",
        "List all available analysis rules with their categories.",
        input_schema_exec(props, None),
    )
}

fn read_file_tool_exec() -> (t: Tool)
    ensures
        tool_view(t) == read_file_tool(),
{
    let mut props: Vec<(String, Json)> = Vec::new();
    assert(entries_view(props@) =~= seq![]);
    push_entry(&mut props, "path", prop_exec("string", "Relative path within the workspace (e.g. 'chapter1.md')."));
    push_entry(&mut props, "offset", prop_exec("integer", "Byte offset to start reading from (default: 0)."));
    push_entry(&mut props, "max_bytes", prop_exec("integer", "Maximum bytes to read (default: 65536, max: 1048576)."));
    push_entry(&mut props, "workspace_dir", prop_exec("string", "Override workspace directory (default: IRONPROSE_WORKSPACE env)."));
    assert(entries_view(props@) =~= read_file_props());
    let required = vec!["path"];
    assert(required@.map_values(|n: &str| n@) =~= seq!["path"@]);
    tool_exec(
        "read_file",
        "Read a file from the workspace. Large files are paginated — use offset and \
             max_bytes to page through content. Maximum single read is 1 MB.",
        input_schema_exec(props, Some(&required)),
    )
}

fn write_file_tool_exec() -> (t: Tool)
    ensures
        tool_view(t) == write_file_tool(),
{
    let mut props: Vec<(String, Json)> = Vec::new();
    assert(entries_view(props@) =~= seq![]);
    push_entry(&mut props, "path", prop_exec("string", "Relative path within the workspace."));
    push_entry(&mut props, "content", prop_exec("string", "The content to write."));
    push_entry(&mut props, "workspace_dir", prop_exec("string", "Override workspace directory (default: IRONPROSE_WORKSPACE env)."));
    assert(entries_view(props@) =~= write_file_props());
    let required = vec!["path", "content"];
    assert(required@.map_values(|n: &str| n@) =~= seq!["path"@, "content"@]);
    tool_exec(
        "write_file",
        "Write content to a file in the workspace. Creates parent directories as needed. \
             Maximum content size is 1 MB. All writes are logged locally.",
        input_schema_exec(props, Some(&required)),
    )
}

fn list_files_tool_exec() -> (t: Tool)
    ensures
        tool_view(t) == list_files_tool(),
{
    let mut props: Vec<(String, Json)> = Vec::new();
    assert(entries_view(props@) =~= seq![]);
    push_entry(&mut props, "subdirectory", prop_exec("string", "Optional subdirectory to list (relative to workspace)."));
    push_entry(&mut props, "recursive", prop_exec("boolean", "List files recursively (default: false)."));
    push_entry(&mut props, "workspace_dir", prop_exec("string", "Override workspace directory."));
    assert(entries_view(props@) =~= list_files_props());
    tool_exec(
        "list_files",
        "List files in the workspace directory. Skips hidden files/directories.",
        input_schema_exec(props, None),
    )
}

/// Build the static list of tools exposed by this server.
pub fn build_tool_list() -> (r: Vec<Tool>)
    ensures
        tools_view(r@) == tool_catalog(),
{
    let mut r: Vec<Tool> = Vec::new();
    r.push(analyze_tool_exec());
    r.push(compare_tool_exec());
    r.push(rate_tool_exec());
    r.push(list_rules_tool_exec());
    r.push(read_file_tool_exec());
    r.push(write_file_tool_exec());
    r.push(list_files_tool_exec());
    assert(tools_view(r@) =~= tool_catalog());
    r
}

/// The names that an input schema lists as required, or `None` where it has
/// no `required` list.
pub open spec fn required_of(schema: JsonSpec) -> Option<JsonSpec> {
    json_get(schema, "required"@)
}

/// Every tool's input schema is a JSON object schema: its `type` is `object`.
pub proof fn catalog_schemas_are_objects()
    ensures
        forall|i: int|
            0 <= i < tool_catalog().len() ==> json_get(#[trigger] tool_catalog()[i].input_schema, "type"@)
                == Some(JsonSpec::Str("object"@)),
{
    assert forall|i: int| 0 <= i < tool_catalog().len() implies json_get(
        #[trigger] tool_catalog()[i].input_schema,
        "type"@,
    ) == Some(JsonSpec::Str("object"@)) by {
        let t = tool_catalog()[i];
        assert(t == analyze_tool() || t == compare_tool() || t == rate_tool() || t == list_rules_tool()
            || t == read_file_tool() || t == write_file_tool() || t == list_files_tool());
    }
}

proof fn lemma_required_of(props: Seq<(Seq<char>, JsonSpec)>, names: Option<Seq<Seq<char>>>)
    ensures
        required_of(input_schema(props, names)) == match names {
            Some(n) => Some(JsonSpec::Array(required_items(n))),
            None => None,
        },
{
    reveal_strlit("required");
    reveal_strlit("type");
    reveal_strlit("properties");
    let es = match input_schema(props, names) {
        JsonSpec::Object(es) => es,
        _ => seq![],
    };
    assert("type"@.len() != "required"@.len());
    assert("properties"@.len() != "required"@.len());
    assert(es[0].0 != "required"@);
    assert(es.drop_first()[0].0 != "required"@);
    assert(entries_get(es, "required"@) == entries_get(es.drop_first(), "required"@));
    assert(entries_get(es.drop_first(), "required"@) == entries_get(
        es.drop_first().drop_first(),
        "required"@,
    ));
    if names is Some {
        assert(es.drop_first().drop_first()[0].0 == "required"@);
    } else {
        assert(es.drop_first().drop_first().len() == 0);
    }
}

/// The remote proxy tools require the same parameters as the remote API:
/// `analyze` requires `text`, `compare` requires `original` and `revised`,
/// `rate` requires `rule` and `rating`, and `list_rules` requires nothing.
pub proof fn catalog_proxy_parameters()
    ensures
        tool_catalog()[0].name == "analyze"@,
        required_of(tool_catalog()[0].input_schema) == Some(
            JsonSpec::Array(seq![JsonSpec::Str("text"@)]),
        ),
        tool_catalog()[1].name == "compare"@,
        required_of(tool_catalog()[1].input_schema) == Some(
            JsonSpec::Array(seq![JsonSpec::Str("original"@), JsonSpec::Str("revised"@)]),
        ),
        tool_catalog()[2].name == "rate"@,
        required_of(tool_catalog()[2].input_schema) == Some(
            JsonSpec::Array(seq![JsonSpec::Str("rule"@), JsonSpec::Str("rating"@)]),
        ),
        tool_catalog()[3].name == "list_rules"@,
        required_of(tool_catalog()[3].input_schema) is None,
{
    lemma_required_of(analyze_props(), Some(seq!["text"@]));
    lemma_required_of(compare_props(), Some(seq!["original"@, "revised"@]));
    lemma_required_of(rate_props(), Some(seq!["rule"@, "rating"@]));
    lemma_required_of(seq![], None);
    assert(required_items(seq!["text"@]) =~= seq![JsonSpec::Str("text"@)]);
    assert(required_items(seq!["original"@, "revised"@]) =~= seq![
        JsonSpec::Str("original"@),
        JsonSpec::Str("revised"@),
    ]);
    assert(required_items(seq!["rule"@, "rating"@]) =~= seq![
        JsonSpec::Str("rule"@),
        JsonSpec::Str("rating"@),
    ]);
}

} // verus!
