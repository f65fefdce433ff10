//! Schema introspection: the part of the OpenAPI document that describes one
//! endpoint, with `$ref` pointers resolved inline.
use vstd::prelude::*;
use crate::json::{
    entries_get, entries_view, get, items_view, json_clone, json_get, jv, lemma_entries_view, lemma_items_view,
    resolve_fuel, resolve_refs, resolved, resolves_within, refs_resolvable, Json, JsonSpec,
};
use crate::tally::{lex_lt, lex_lt_exec};
use crate::text::{str_eq};

verus! {

/// One body parameter as listed for agents: its name and description (or null).
pub open spec fn parameter_entry(name: Seq<char>, prop: JsonSpec) -> (Seq<char>, JsonSpec) {
    (
        name,
        match json_get(prop, "description"@) {
            Some(d) => d,
            None => JsonSpec::Null,
        },
    )
}

/// `x` inserted into `s` after every entry whose name does not come after its own.
pub open spec fn insert_by_name(x: (Seq<char>, JsonSpec), s: Seq<(Seq<char>, JsonSpec)>) -> Seq<
    (Seq<char>, JsonSpec),
>
    decreases s.len(),
{
    if s.len() == 0 {
        seq![x]
    } else if lex_lt(x.0, s[0].0) {
        seq![x] + s
    } else {
        seq![s[0]] + insert_by_name(x, s.drop_first())
    }
}

/// `s` sorted by name, keeping the order of equal names (a stable sort).
pub open spec fn sort_by_name(s: Seq<(Seq<char>, JsonSpec)>) -> Seq<(Seq<char>, JsonSpec)>
    decreases s.len(),
{
    if s.len() == 0 {
        seq![]
    } else {
        insert_by_name(s.last(), sort_by_name(s.drop_last()))
    }
}

/// The parameters of object properties `props`, in property order.
pub open spec fn parameter_entries(props: Seq<(Seq<char>, JsonSpec)>) -> Seq<(Seq<char>, JsonSpec)>
    decreases props.len(),
{
    if props.len() == 0 {
        seq![]
    } else {
        parameter_entries(props.drop_last()).push(
            parameter_entry(props.last().0, props.last().1),
        )
    }
}

/// A parameter as the JSON object `{ name, description }`.
pub open spec fn parameter_object(p: (Seq<char>, JsonSpec)) -> JsonSpec {
    JsonSpec::Object(seq![("name"@, JsonSpec::Str(p.0)), ("description"@, p.1)])
}

/// The flat `parameters` list of a schema's `properties` object, sorted by name;
/// `None` when the schema has no `properties` object.
pub open spec fn properties_to_parameters_spec(schema: JsonSpec) -> Option<JsonSpec> {
    match json_get(schema, "properties"@) {
        Some(JsonSpec::Object(props)) => Some(
            JsonSpec::Array(sort_by_name(parameter_entries(props)).map_values(
                |p: (Seq<char>, JsonSpec)| parameter_object(p),
            )),
        ),
        _ => None,
    }
}

proof fn lemma_insert_at(x: (Seq<char>, JsonSpec), s: Seq<(Seq<char>, JsonSpec)>, k: int)
    requires
        0 <= k <= s.len(),
        forall|m: int| 0 <= m < k ==> !lex_lt(x.0, #[trigger] s[m].0),
        k < s.len() ==> lex_lt(x.0, s[k].0),
    ensures
        insert_by_name(x, s) == s.insert(k, x),
    decreases s.len(),
{
    if s.len() == 0 {
        assert(s.insert(k, x) =~= seq![x]);
    } else if k == 0 {
        assert(s.insert(0, x) =~= seq![x] + s);
    } else {
        assert(!lex_lt(x.0, s[0].0));
        let t = s.drop_first();
        assert forall|m: int| 0 <= m < k - 1 implies !lex_lt(x.0, #[trigger] t[m].0) by {
            assert(t[m] == s[m + 1]);
        }
        if k - 1 < t.len() {
            assert(t[k - 1] == s[k]);
        }
        lemma_insert_at(x, t, k - 1);
        assert(s.insert(k, x) =~= seq![s[0]] + t.insert(k - 1, x));
    }
}

fn make_parameter(name: &String, prop: &Json) -> (r: (String, Json))
    ensures
        (r.0@, jv(r.1)) == parameter_entry(name@, jv(*prop)),
{
    let d = match get(prop, "description") {
        Some(d) => json_clone(d),
        None => Json::Null,
    };
    (name.clone(), d)
}

/// Convert a schema's `properties` map into a flat `parameters` array of
/// `{ name, description }` objects for easy agent consumption, sorted by name.
#[verifier::spinoff_prover]
pub fn properties_to_parameters(schema: &Json) -> (r: Option<Json>)
    ensures
        match r {
            Some(x) => properties_to_parameters_spec(jv(*schema)) == Some(jv(x)),
            None => properties_to_parameters_spec(jv(*schema)) is None,
        },
{
    let props = match get(schema, "properties") {
        Some(p) => p,
        None => {
            return None;
        },
    };
    match props {
        Json::Object(es) => {
            let ghost pv = entries_view(es@);
            proof {
                lemma_entries_view(es@);
            }
            let mut sorted: Vec<(String, Json)> = Vec::new();
            let mut i: usize = 0;
            while i < es.len()
                invariant
                    0 <= i <= es@.len(),
                    pv == entries_view(es@),
                    pv.len() == es@.len(),
                    forall|m: int| 0 <= m < es@.len() ==> #[trigger] pv[m] == (es@[m].0@, jv(es@[m].1)),
                    entries_view(sorted@) == sort_by_name(parameter_entries(pv.take(i as int))),
                decreases es@.len() - i,
            {
                let x = make_parameter(&es[i].0, &es[i].1);
                proof {
                    lemma_entries_view(sorted@);
                    assert(pv[i as int] == (es@[i as int].0@, jv(es@[i as int].1)));
                    assert(pv.take(i + 1).drop_last() == pv.take(i as int));
                    assert(pv.take(i + 1).last() == pv[i as int]);
                }
                let ghost sv = entries_view(sorted@);
                let mut k: usize = 0;
                while k < sorted.len() && !lex_lt_exec(x.0.as_str(), sorted[k].0.as_str())
                    invariant
                        0 <= k <= sorted@.len(),
                        sv == entries_view(sorted@),
                        sv.len() == sorted@.len(),
                        forall|m: int| 0 <= m < sorted@.len() ==> #[trigger] sv[m] == (sorted@[m].0@, jv(sorted@[m].1)),
                        forall|m: int| 0 <= m < k ==> !lex_lt(x.0@, #[trigger] sv[m].0),
                    decreases sorted@.len() - k,
                {
                    k = k + 1;
                }
                proof {
                    if k < sorted@.len() {
                        assert(sv[k as int] == (sorted@[k as int].0@, jv(sorted@[k as int].1)));
                    }
                    lemma_insert_at((x.0@, jv(x.1)), sv, k as int);
                }
                let ghost before = sorted@;
                sorted.insert(k, x);
                proof {
                    lemma_entries_view(sorted@);
                    assert(entries_view(sorted@) =~= sv.insert(k as int, (x.0@, jv(x.1))));
                    let pe = parameter_entries(pv.take(i + 1));
                    assert(pe.drop_last() == parameter_entries(pv.take(i as int)));
                    assert(pe.last() == (x.0@, jv(x.1)));
                    assert(sort_by_name(pe) == insert_by_name(pe.last(), sort_by_name(pe.drop_last())));
                }
                i = i + 1;
            }
            assert(pv.take(i as int) == pv);
            let mut out: Vec<Json> = Vec::new();
            let ghost sv = entries_view(sorted@);
            proof {
                lemma_entries_view(sorted@);
            }
            let mut j: usize = 0;
            while j < sorted.len()
                invariant
                    0 <= j <= sorted@.len(),
                    sv == entries_view(sorted@),
                    sv.len() == sorted@.len(),
                    forall|m: int| 0 <= m < sorted@.len() ==> #[trigger] sv[m] == (sorted@[m].0@, jv(sorted@[m].1)),
                    items_view(out@) == sv.take(j as int).map_values(
                        |p: (Seq<char>, JsonSpec)| parameter_object(p),
                    ),
                decreases sorted@.len() - j,
            {
                let name = sorted[j].0.clone();
                let desc = json_clone(&sorted[j].1);
                let entries = vec![
                    (String::from_str("name"), Json::Str(name)),
                    (String::from_str("description"), desc),
                ];
                proof {
                    lemma_entries_view(entries@);
                    assert(entries_view(entries@) =~= seq![
                        ("name"@, JsonSpec::Str(sv[j as int].0)),
                        ("description"@, sv[j as int].1),
                    ]);
                }
                let obj = Json::Object(entries);
                assert(jv(obj) == parameter_object(sv[j as int]));
                let ghost before = out@;
                out.push(obj);
                proof {
                    assert(out@.drop_last() =~= before);
                    assert(sv.take(j + 1).map_values(|p: (Seq<char>, JsonSpec)| parameter_object(p))
                        =~= sv.take(j as int).map_values(
                        |p: (Seq<char>, JsonSpec)| parameter_object(p),
                    ).push(parameter_object(sv[j as int])));
                }
                j = j + 1;
            }
            assert(sv.take(j as int) == sv);
            let r = Json::Array(out);
            assert(jv(*props) == JsonSpec::Object(pv));
            Some(r)
        },
        _ => None,
    }
}

/// `es` with key `k` set to `v`: the first entry with that key is replaced, or
/// the entry is appended (as inserting into a JSON object).
pub open spec fn obj_set(es: Seq<(Seq<char>, JsonSpec)>, k: Seq<char>, v: JsonSpec) -> Seq<
    (Seq<char>, JsonSpec),
>
    decreases es.len(),
{
    if es.len() == 0 {
        seq![(k, v)]
    } else if es[0].0 == k {
        seq![(k, v)] + es.drop_first()
    } else {
        seq![es[0]] + obj_set(es.drop_first(), k, v)
    }
}

/// `es` with key `k` set to `v` when `v` is present.
pub open spec fn obj_set_opt(es: Seq<(Seq<char>, JsonSpec)>, k: Seq<char>, v: Option<JsonSpec>) -> Seq<
    (Seq<char>, JsonSpec),
> {
    match v {
        Some(x) => obj_set(es, k, x),
        None => es,
    }
}

proof fn lemma_obj_set_found(es: Seq<(Seq<char>, JsonSpec)>, k: Seq<char>, v: JsonSpec, idx: int)
    requires
        0 <= idx < es.len(),
        es[idx].0 == k,
        forall|m: int| 0 <= m < idx ==> #[trigger] es[m].0 != k,
    ensures
        obj_set(es, k, v) == es.update(idx, (k, v)),
    decreases es.len(),
{
    if idx == 0 {
        assert(es.update(0, (k, v)) =~= seq![(k, v)] + es.drop_first());
    } else {
        let t = es.drop_first();
        assert forall|m: int| 0 <= m < idx - 1 implies #[trigger] t[m].0 != k by {
            assert(t[m] == es[m + 1]);
        }
        lemma_obj_set_found(t, k, v, idx - 1);
        assert(es.update(idx, (k, v)) =~= seq![es[0]] + t.update(idx - 1, (k, v)));
    }
}

proof fn lemma_obj_set_absent(es: Seq<(Seq<char>, JsonSpec)>, k: Seq<char>, v: JsonSpec)
    requires
        forall|m: int| 0 <= m < es.len() ==> #[trigger] es[m].0 != k,
    ensures
        obj_set(es, k, v) == es.push((k, v)),
    decreases es.len(),
{
    if es.len() == 0 {
        assert(seq![(k, v)] =~= es.push((k, v)));
    } else {
        let t = es.drop_first();
        assert forall|m: int| 0 <= m < t.len() implies #[trigger] t[m].0 != k by {
            assert(t[m] == es[m + 1]);
        }
        lemma_obj_set_absent(t, k, v);
        assert(es.push((k, v)) =~= seq![es[0]] + t.push((k, v)));
    }
}

/// Sets key `k` of the object entries `es` to `v`.
pub fn obj_set_exec(es: &mut Vec<(String, Json)>, k: &str, v: Json)
    ensures
        entries_view(final(es)@) == obj_set(entries_view(old(es)@), k@, jv(v)),
{
    let ghost ev = entries_view(es@);
    proof {
        lemma_entries_view(es@);
    }
    let mut i: usize = 0;
    while i < es.len()
        invariant
            0 <= i <= es@.len(),
            ev == entries_view(es@),
            ev.len() == es@.len(),
            forall|m: int| 0 <= m < es@.len() ==> #[trigger] ev[m] == (es@[m].0@, jv(es@[m].1)),
            forall|m: int| 0 <= m < i ==> #[trigger] ev[m].0 != k@,
            es@ == old(es)@,
        decreases es@.len() - i,
    {
        if str_eq(es[i].0.as_str(), k) {
            proof {
                lemma_obj_set_found(ev, k@, jv(v), i as int);
            }
            let key = String::from_str(k);
            es.set(i, (key, v));
            proof {
                lemma_entries_view(es@);
                assert(entries_view(es@) =~= ev.update(i as int, (k@, jv(v))));
            }
            return;
        }
        i = i + 1;
    }
    proof {
        lemma_obj_set_absent(ev, k@, jv(v));
    }
    let key = String::from_str(k);
    let ghost before = es@;
    es.push((key, v));
    assert(es@.drop_last() =~= before);
}

/// The HTTP method and API path an endpoint name stands for.
pub open spec fn endpoint_route(name: Seq<char>) -> Option<(Seq<char>, Seq<char>)> {
    if name == "analyze"@ {
        Some(("post"@, "/analyze"@))
    } else if name == "compare"@ {
        Some(("post"@, "/compare"@))
    } else if name == "rate"@ {
        Some(("post"@, "/rate"@))
    } else if name == "list-rules"@ || name == "list_rules"@ || name == "rules"@ {
        Some(("get"@, "/rules"@))
    } else if name == "entitlement"@ {
        Some(("get"@, "/entitlement"@))
    } else if name == "insights"@ {
        Some(("get"@, "/insights"@))
    } else {
        None
    }
}

/// The upper-case form of a method name of `endpoint_route`.
pub open spec fn method_upper(m: Seq<char>) -> Seq<char> {
    if m == "post"@ {
        "POST"@
    } else {
        "GET"@
    }
}

/// The operation object of endpoint `name` in `spec`, when it exists.
pub open spec fn endpoint_operation(spec: JsonSpec, name: Seq<char>) -> Option<JsonSpec> {
    match json_get(spec, "paths"@) {
        Some(paths) => match endpoint_route(name) {
            Some((m, p)) => match json_get(paths, p) {
                Some(po) => json_get(po, m),
                None => None,
            },
            None => None,
        },
        None => None,
    }
}

/// The request body of endpoint `name` in `spec`, when it has one.
pub open spec fn endpoint_request_body(spec: JsonSpec, name: Seq<char>) -> Option<JsonSpec> {
    match endpoint_operation(spec, name) {
        Some(op) => json_get(op, "requestBody"@),
        None => None,
    }
}

/// The JSON schema of the `application/json` content of a request body.
pub open spec fn body_json_schema(body: JsonSpec) -> Option<JsonSpec> {
    match json_get(body, "content"@) {
        Some(c) => match json_get(c, "application/json"@) {
            Some(a) => json_get(a, "schema"@),
            None => None,
        },
        None => None,
    }
}

/// The entries after the request body is described: the resolved body, and a
/// flat parameter list when its JSON schema has properties.
pub open spec fn with_request_body(es: Seq<(Seq<char>, JsonSpec)>, body: JsonSpec, spec: JsonSpec) -> Seq<
    (Seq<char>, JsonSpec),
> {
    let res = resolved(body, spec);
    let with_params = match body_json_schema(res) {
        Some(sch) => obj_set_opt(es, "parameters"@, properties_to_parameters_spec(sch)),
        None => es,
    };
    obj_set(with_params, "request_body"@, res)
}

/// The focused schema of an operation.
pub open spec fn operation_schema(spec: JsonSpec, op: JsonSpec, m: Seq<char>, p: Seq<char>) -> JsonSpec {
    let e0 = seq![("endpoint"@, JsonSpec::Str(p)), ("method"@, JsonSpec::Str(method_upper(m)))];
    let e1 = match json_get(op, "requestBody"@) {
        Some(body) => with_request_body(e0, body, spec),
        None => e0,
    };
    let e2 = obj_set_opt(e1, "responses"@, json_get(op, "responses"@));
    let e3 = obj_set_opt(e2, "description"@, json_get(op, "description"@));
    let e4 = obj_set_opt(e3, "summary"@, json_get(op, "summary"@));
    JsonSpec::Object(obj_set_opt(e4, "parameters"@, json_get(op, "parameters"@)))
}

/// The schema of endpoint `name`, or why it cannot be given.
pub open spec fn endpoint_schema_spec(spec: JsonSpec, name: Seq<char>) -> Result<JsonSpec, Seq<char>> {
    match json_get(spec, "paths"@) {
        None => Err("OpenAPI spec missing 'paths'"@),
        Some(paths) => match endpoint_route(name) {
            None => Err(
                "Unknown endpoint: "@ + name
                    + ". Available: analyze, compare, rate, list-rules, entitlement, insights"@,
            ),
            Some((m, p)) => match json_get(paths, p) {
                None => Err("Path "@ + p + " not found in OpenAPI spec"@),
                Some(po) => match json_get(po, m) {
                    None => Err("Method "@ + m + " not found for "@ + p),
                    Some(op) => Ok(operation_schema(spec, op, m, p)),
                },
            },
        },
    }
}

/// A result with a JSON value, seen through views.
pub open spec fn json_result_view(r: Result<Json, String>) -> Result<JsonSpec, Seq<char>> {
    match r {
        Ok(j) => Ok(jv(j)),
        Err(e) => Err(e@),
    }
}

fn set_if_present(es: &mut Vec<(String, Json)>, op: &Json, key: &str)
    ensures
        entries_view(final(es)@) == obj_set_opt(entries_view(old(es)@), key@, json_get(jv(*op), key@)),
{
    match get(op, key) {
        Some(v) => {
            let c = json_clone(v);
            obj_set_exec(es, key, c);
        },
        None => {},
    }
}

fn append_request_body(es: &mut Vec<(String, Json)>, body: &Json, spec: &Json)
    requires
        refs_resolvable(jv(*body), jv(*spec)),
    ensures
        entries_view(final(es)@) == with_request_body(entries_view(old(es)@), jv(*body), jv(*spec)),
{
    let res = resolve_refs(body, spec);
    let schema_opt = match get(&res, "content") {
        Some(c) => match get(c, "application/json") {
            Some(a) => get(a, "schema"),
            None => None,
        },
        None => None,
    };
    match schema_opt {
        Some(sch) => {
            match properties_to_parameters(sch) {
                Some(params) => obj_set_exec(es, "parameters", params),
                None => {},
            }
        },
        None => {},
    }
    obj_set_exec(es, "request_body", res);
}

/// Get the schema for a specific endpoint.
///
/// Maps user-facing names to OpenAPI paths:
/// - `analyze` → POST /analyze
/// - `compare` → POST /compare
/// - `rate` → POST /rate
/// - `list-rules` / `list_rules` → GET /rules
/// - `entitlement` → GET /entitlement
/// - `insights` → GET /insights
///
/// All `$ref` pointers in the returned schema are resolved inline so that
/// agents can discover every parameter without additional lookups.
#[verifier::spinoff_prover]
pub fn endpoint_schema(spec: &Json, name: &str) -> (r: Result<Json, String>)
    requires
        endpoint_request_body(jv(*spec), name@) matches Some(body) ==> refs_resolvable(
            body,
            jv(*spec),
        ),
    ensures
        json_result_view(r) == endpoint_schema_spec(jv(*spec), name@),
{
    let paths = match get(spec, "paths") {
        Some(p) => p,
        None => {
            return Err(String::from_str("OpenAPI spec missing 'paths'"));
        },
    };
    let (method, api_path): (&str, &str) = if str_eq(name, "analyze") {
        ("post", "/analyze")
    } else if str_eq(name, "compare") {
        ("post", "/compare")
    } else if str_eq(name, "rate") {
        ("post", "/rate")
    } else if str_eq(name, "list-rules") || str_eq(name, "list_rules") || str_eq(name, "rules") {
        ("get", "/rules")
    } else if str_eq(name, "entitlement") {
        ("get", "/entitlement")
    } else if str_eq(name, "insights") {
        ("get", "/insights")
    } else {
        let mut m = String::from_str("Unknown endpoint: ");
        m.append(name);
        m.append(". Available: analyze, compare, rate, list-rules, entitlement, insights");
        return Err(m);
    };
    let path_obj = match get(paths, api_path) {
        Some(p) => p,
        None => {
            let mut m = String::from_str("Path ");
            m.append(api_path);
            m.append(" not found in OpenAPI spec");
            return Err(m);
        },
    };
    let op = match get(path_obj, method) {
        Some(o) => o,
        None => {
            let mut m = String::from_str("Method ");
            m.append(method);
            m.append(" not found for ");
            m.append(api_path);
            return Err(m);
        },
    };
    let upper = if str_eq(method, "post") {
        "POST"
    } else {
        "GET"
    };
    let mut es: Vec<(String, Json)> = vec![
        (String::from_str("endpoint"), Json::Str(String::from_str(api_path))),
        (String::from_str("method"), Json::Str(String::from_str(upper))),
    ];
    proof {
        lemma_entries_view(es@);
        assert(entries_view(es@) =~= seq![
            ("endpoint"@, JsonSpec::Str(api_path@)),
            ("method"@, JsonSpec::Str(upper@)),
        ]);
    }
    match get(op, "requestBody") {
        Some(body) => append_request_body(&mut es, body, spec),
        None => {},
    }
    set_if_present(&mut es, op, "responses");
    set_if_present(&mut es, op, "description");
    set_if_present(&mut es, op, "summary");
    set_if_present(&mut es, op, "parameters");
    Ok(Json::Object(es))
}

fn endpoint_route_exec(name: &str) -> (r: Option<(&'static str, &'static str)>)
    ensures
        match endpoint_route(name@) {
            Some((m, p)) => r matches Some(x) && x.0@ == m && x.1@ == p,
            None => r is None,
        },
{
    if str_eq(name, "analyze") {
        Some(("post", "/analyze"))
    } else if str_eq(name, "compare") {
        Some(("post", "/compare"))
    } else if str_eq(name, "rate") {
        Some(("post", "/rate"))
    } else if str_eq(name, "list-rules") || str_eq(name, "list_rules") || str_eq(name, "rules") {
        Some(("get", "/rules"))
    } else if str_eq(name, "entitlement") {
        Some(("get", "/entitlement"))
    } else if str_eq(name, "insights") {
        Some(("get", "/insights"))
    } else {
        None
    }
}

fn endpoint_request_body_exec<'a>(spec: &'a Json, name: &str) -> (r: Option<&'a Json>)
    ensures
        match r {
            Some(b) => endpoint_request_body(jv(*spec), name@) == Some(jv(*b)),
            None => endpoint_request_body(jv(*spec), name@) is None,
        },
{
    let paths = match get(spec, "paths") {
        Some(p) => p,
        None => {
            return None;
        },
    };
    let (method, api_path) = match endpoint_route_exec(name) {
        Some(x) => x,
        None => {
            return None;
        },
    };
    let path_obj = match get(paths, api_path) {
        Some(p) => p,
        None => {
            return None;
        },
    };
    let op = match get(path_obj, method) {
        Some(o) => o,
        None => {
            return None;
        },
    };
    get(op, "requestBody")
}

/// The schema of an endpoint, as `endpoint_schema` gives it, when the `$ref`
/// pointers of its request body resolve following at most `max_refs`
/// references along any path; `None` otherwise (as for references that lead
/// back to themselves).
pub fn checked_endpoint_schema(spec: &Json, name: &str, max_refs: u64) -> (r: Option<
    Result<Json, String>,
>)
    ensures
        r is None <==> (endpoint_request_body(jv(*spec), name@) matches Some(b) && resolve_fuel(
            b,
            jv(*spec),
            max_refs as nat,
        ) is None),
        r matches Some(x) ==> json_result_view(x) == endpoint_schema_spec(jv(*spec), name@),
{
    match endpoint_request_body_exec(spec, name) {
        Some(body) => {
            if !resolves_within(body, spec, max_refs) {
                return None;
            }
        },
        None => {},
    }
    Some(endpoint_schema(spec, name))
}

/// Entries that start with an `endpoint` and a `method` entry.
spec fn starts_with_route(es: Seq<(Seq<char>, JsonSpec)>, p: Seq<char>, m: Seq<char>) -> bool {
    es.len() >= 2 && es[0] == ("endpoint"@, JsonSpec::Str(p)) && es[1] == ("method"@, JsonSpec::Str(m))
}

proof fn lemma_obj_set_keeps_route(es: Seq<(Seq<char>, JsonSpec)>, k: Seq<char>, v: JsonSpec, p: Seq<char>, m: Seq<char>)
    requires
        starts_with_route(es, p, m),
        k.len() != 8,
        k.len() != 6,
    ensures
        starts_with_route(obj_set(es, k, v), p, m),
{
    reveal_strlit("endpoint");
    reveal_strlit("method");
    assert(es[0].0 != k);
    assert(es.drop_first()[0] == es[1]);
    assert(es.drop_first()[0].0 != k);
    let t = obj_set(es.drop_first(), k, v);
    assert(t == seq![es[1]] + obj_set(es.drop_first().drop_first(), k, v));
}

proof fn lemma_obj_set_opt_keeps_route(es: Seq<(Seq<char>, JsonSpec)>, k: Seq<char>, v: Option<JsonSpec>, p: Seq<char>, m: Seq<char>)
    requires
        starts_with_route(es, p, m),
        k.len() != 8,
        k.len() != 6,
    ensures
        starts_with_route(obj_set_opt(es, k, v), p, m),
{
    if v is Some {
        lemma_obj_set_keeps_route(es, k, v.unwrap(), p, m);
    }
}

proof fn lemma_operation_schema_keeps_route(spec: JsonSpec, op: JsonSpec, m: Seq<char>, p: Seq<char>)
    ensures
        json_get(operation_schema(spec, op, m, p), "endpoint"@) == Some(JsonSpec::Str(p)),
        json_get(operation_schema(spec, op, m, p), "method"@) == Some(JsonSpec::Str(method_upper(m))),
{
    reveal_strlit("endpoint");
    reveal_strlit("method");
    reveal_strlit("parameters");
    reveal_strlit("request_body");
    reveal_strlit("responses");
    reveal_strlit("description");
    reveal_strlit("summary");
    let mu = method_upper(m);
    let e0 = seq![("endpoint"@, JsonSpec::Str(p)), ("method"@, JsonSpec::Str(mu))];
    assert(starts_with_route(e0, p, mu));
    let e1 = match json_get(op, "requestBody"@) {
        Some(body) => with_request_body(e0, body, spec),
        None => e0,
    };
    if json_get(op, "requestBody"@) is Some {
        let body = json_get(op, "requestBody"@).unwrap();
        let res = resolved(body, spec);
        let wp = match body_json_schema(res) {
            Some(sch) => obj_set_opt(e0, "parameters"@, properties_to_parameters_spec(sch)),
            None => e0,
        };
        if body_json_schema(res) is Some {
            lemma_obj_set_opt_keeps_route(e0, "parameters"@, properties_to_parameters_spec(body_json_schema(res).unwrap()), p, mu);
        }
        lemma_obj_set_keeps_route(wp, "request_body"@, res, p, mu);
    }
    assert(starts_with_route(e1, p, mu));
    let e2 = obj_set_opt(e1, "responses"@, json_get(op, "responses"@));
    lemma_obj_set_opt_keeps_route(e1, "responses"@, json_get(op, "responses"@), p, mu);
    let e3 = obj_set_opt(e2, "description"@, json_get(op, "description"@));
    lemma_obj_set_opt_keeps_route(e2, "description"@, json_get(op, "description"@), p, mu);
    let e4 = obj_set_opt(e3, "summary"@, json_get(op, "summary"@));
    lemma_obj_set_opt_keeps_route(e3, "summary"@, json_get(op, "summary"@), p, mu);
    let e5 = obj_set_opt(e4, "parameters"@, json_get(op, "parameters"@));
    lemma_obj_set_opt_keeps_route(e4, "parameters"@, json_get(op, "parameters"@), p, mu);
    assert(e5[0].0 == "endpoint"@);
    assert(e5[0].0 != "method"@);
    assert(entries_get(e5, "method"@) == entries_get(e5.drop_first(), "method"@));
    assert(e5.drop_first()[0] == e5[1]);
}

/// The documented endpoint table: `analyze`, `compare` and `rate` are looked up
/// under `/<name>` with method `post`; `entitlement` and `insights` under
/// `/<name>` with method `get`; `list-rules`, `list_rules` and `rules` under
/// `/rules` with method `get`; no other name is an endpoint.
pub proof fn endpoint_table(name: Seq<char>)
    ensures
        endpoint_route(name) is Some <==> (name == "analyze"@ || name == "compare"@ || name
            == "rate"@ || name == "list-rules"@ || name == "list_rules"@ || name == "rules"@ || name
            == "entitlement"@ || name == "insights"@),
        (name == "analyze"@ || name == "compare"@ || name == "rate"@) ==> endpoint_route(name)
            == Some(("post"@, "/"@ + name)),
        (name == "entitlement"@ || name == "insights"@) ==> endpoint_route(name) == Some(
            ("get"@, "/"@ + name),
        ),
        (name == "list-rules"@ || name == "list_rules"@ || name == "rules"@) ==> endpoint_route(
            name,
        ) == Some(("get"@, "/rules"@)),
{
    reveal_strlit("analyze");
    reveal_strlit("compare");
    reveal_strlit("rate");
    reveal_strlit("list-rules");
    reveal_strlit("list_rules");
    reveal_strlit("rules");
    reveal_strlit("entitlement");
    reveal_strlit("insights");
    reveal_strlit("/");
    reveal_strlit("/analyze");
    reveal_strlit("/compare");
    reveal_strlit("/rate");
    reveal_strlit("/entitlement");
    reveal_strlit("/insights");
    assert("/analyze"@ =~= "/"@ + "analyze"@);
    assert("/compare"@ =~= "/"@ + "compare"@);
    assert("/rate"@ =~= "/"@ + "rate"@);
    assert("/entitlement"@ =~= "/"@ + "entitlement"@);
    assert("/insights"@ =~= "/"@ + "insights"@);
}

/// The schema of an endpoint names the path it was found under and reports
/// its method in capitals: `POST` for `analyze`, `compare` and `rate`, `GET`
/// for every other endpoint.
pub proof fn endpoint_schema_reports_route(spec: JsonSpec, name: Seq<char>)
    ensures
        endpoint_schema_spec(spec, name) matches Ok(schema) ==> {
            &&& json_get(schema, "method"@) == Some(
                JsonSpec::Str(
                    if name == "analyze"@ || name == "compare"@ || name == "rate"@ {
                        "POST"@
                    } else {
                        "GET"@
                    },
                ),
            )
            &&& json_get(schema, "endpoint"@) == Some(
                JsonSpec::Str(
                    if name == "list-rules"@ || name == "list_rules"@ || name == "rules"@ {
                        "/rules"@
                    } else {
                        "/"@ + name
                    },
                ),
            )
        },
{
    endpoint_table(name);
    reveal_strlit("post");
    reveal_strlit("get");
    reveal_strlit("endpoint");
    reveal_strlit("method");
    if endpoint_schema_spec(spec, name) is Ok {
        let (m, p) = endpoint_route(name).unwrap();
        let op = endpoint_operation(spec, name).unwrap();
        assert(endpoint_schema_spec(spec, name) == Ok::<JsonSpec, Seq<char>>(operation_schema(spec, op, m, p)));
        lemma_operation_schema_keeps_route(spec, op, m, p);
        assert("get"@.len() != "post"@.len());
        if name == "analyze"@ || name == "compare"@ || name == "rate"@ {
            assert(m == "post"@);
            assert(method_upper(m) == "POST"@);
        } else {
            assert(m == "get"@);
            assert(method_upper(m) == "GET"@);
        }
    }
}

} // verus!
