//! A JSON value as plain data, and its mathematical view.
use vstd::prelude::*;
use crate::path::{segments, segments_exec};
use crate::text::{chars_of, string_of, vec_chars_eq};

verus! {

/// A JSON value. Object entries keep the order of the map they came from and
/// hold each key once.
#[derive(Debug)]
pub enum Json {
    Null,
    Bool(bool),
    /// A number, as it is written in JSON text.
    Number(String),
    Str(String),
    Array(Vec<Json>),
    Object(Vec<(String, Json)>),
}

/// The mathematical view of a JSON value.
pub enum JsonSpec {
    Null,
    Bool(bool),
    Number(Seq<char>),
    Str(Seq<char>),
    Array(Seq<JsonSpec>),
    Object(Seq<(Seq<char>, JsonSpec)>),
}

/// The view of a JSON value.
pub open spec fn jv(j: Json) -> JsonSpec
    decreases j,
{
    match j {
        Json::Null => JsonSpec::Null,
        Json::Bool(b) => JsonSpec::Bool(b),
        Json::Number(n) => JsonSpec::Number(n@),
        Json::Str(s) => JsonSpec::Str(s@),
        Json::Array(v) => JsonSpec::Array(items_view(v@)),
        Json::Object(v) => JsonSpec::Object(entries_view(v@)),
    }
}

/// The view of a sequence of items.
pub open spec fn items_view(s: Seq<Json>) -> Seq<JsonSpec>
    decreases s,
{
    if s.len() == 0 {
        seq![]
    } else {
        items_view(s.drop_last()).push(jv(s.last()))
    }
}

/// The view of a sequence of object entries.
pub open spec fn entries_view(s: Seq<(String, Json)>) -> Seq<(Seq<char>, JsonSpec)>
    decreases s,
{
    if s.len() == 0 {
        seq![]
    } else {
        entries_view(s.drop_last()).push((s.last().0@, jv(s.last().1)))
    }
}

pub proof fn lemma_items_view(s: Seq<Json>)
    ensures
        items_view(s).len() == s.len(),
        forall|i: int| 0 <= i < s.len() ==> #[trigger] items_view(s)[i] == jv(s[i]),
    decreases s.len(),
{
    if s.len() > 0 {
        lemma_items_view(s.drop_last());
    }
}

pub proof fn lemma_entries_view(s: Seq<(String, Json)>)
    ensures
        entries_view(s).len() == s.len(),
        forall|i: int| 0 <= i < s.len() ==> #[trigger] entries_view(s)[i] == (s[i].0@, jv(s[i].1)),
    decreases s.len(),
{
    if s.len() > 0 {
        lemma_entries_view(s.drop_last());
    }
}

/// The value of the first entry with key `k`.
pub open spec fn entries_get(es: Seq<(Seq<char>, JsonSpec)>, k: Seq<char>) -> Option<JsonSpec>
    decreases es.len(),
{
    if es.len() == 0 {
        None
    } else if es[0].0 == k {
        Some(es[0].1)
    } else {
        entries_get(es.drop_first(), k)
    }
}

/// `j[k]` when `j` is an object holding key `k` (as `Value::get` with a key).
pub open spec fn json_get(j: JsonSpec, k: Seq<char>) -> Option<JsonSpec> {
    match j {
        JsonSpec::Object(es) => entries_get(es, k),
        _ => None,
    }
}

/// Looks up key `k` in object `j`.
#[verifier::spinoff_prover]
pub fn get<'a>(j: &'a Json, k: &str) -> (r: Option<&'a Json>)
    ensures
        match r {
            Some(x) => json_get(jv(*j), k@) == Some(jv(*x)),
            None => json_get(jv(*j), k@) is None,
        },
{
    match j {
        Json::Object(es) => {
            let kv = chars_of(k);
            let ghost sv = match jv(*j) {
                JsonSpec::Object(e) => e,
                _ => Seq::empty(),
            };
            let mut i: usize = 0;
            proof {
                lemma_entries_view(es@);
            }
            assert(sv.skip(0) == sv);
            assert(jv(*j) == JsonSpec::Object(sv));
            assert(json_get(jv(*j), k@) == entries_get(sv, k@));
            while i < es.len()
                invariant
                    0 <= i <= es@.len(),
                    kv@ == k@,
                    sv.len() == es@.len(),
                    forall|m: int| 0 <= m < es@.len() ==> #[trigger] sv[m] == (es@[m].0@, jv(es@[m].1)),
                    entries_get(sv, k@) == entries_get(sv.skip(i as int), k@),
                    json_get(jv(*j), k@) == entries_get(sv, k@),
                decreases es@.len() - i,
            {
                let key = chars_of(es[i].0.as_str());
                assert(sv.skip(i as int)[0] == sv[i as int]);
                if vec_chars_eq(&key, &kv) {
                    assert(sv[i as int] == (es@[i as int].0@, jv(es@[i as int].1)));
                    assert(entries_get(sv.skip(i as int), k@) == Some(jv(es@[i as int].1)));
                    return Some(&es[i].1);
                }
                assert(sv.skip(i as int).drop_first() == sv.skip(i + 1));
                i = i + 1;
            }
            None
        },
        _ => None,
    }
}

/// Follows the keys of `parts` from `j`, one object level per key.
pub open spec fn walk(parts: Seq<Seq<char>>, j: JsonSpec) -> Option<JsonSpec>
    decreases parts.len(),
{
    if parts.len() == 0 {
        Some(j)
    } else {
        match json_get(j, parts[0]) {
            Some(next) => walk(parts.drop_first(), next),
            None => None,
        }
    }
}

/// The target of a local JSON reference `#/a/b/c` within `spec`: the text after
/// `#/` is split on `/` and each part is looked up as an object key (no
/// escape sequences are decoded). `None` for other references.
pub open spec fn resolve_ref_spec(ref_str: Seq<char>, spec: JsonSpec) -> Option<JsonSpec> {
    if ref_str.len() >= 2 && ref_str[0] == '#' && ref_str[1] == '/' {
        walk(segments(ref_str.skip(2)), spec)
    } else {
        None
    }
}

/// Resolve a single JSON Reference (`$ref`) to its target within the spec.
///
/// Only local refs of the form `#/a/b/c` are supported.
#[verifier::spinoff_prover]
pub fn resolve_ref<'a>(ref_str: &str, spec: &'a Json) -> (r: Option<&'a Json>)
    ensures
        match r {
            Some(x) => resolve_ref_spec(ref_str@, jv(*spec)) == Some(jv(*x)),
            None => resolve_ref_spec(ref_str@, jv(*spec)) is None,
        },
{
    let rv = chars_of(ref_str);
    if !(rv.len() >= 2 && rv[0] == '#' && rv[1] == '/') {
        return None;
    }
    let mut rest: Vec<char> = Vec::new();
    let mut i: usize = 2;
    while i < rv.len()
        invariant
            2 <= i <= rv@.len(),
            rest@ == rv@.subrange(2, i as int),
        decreases rv@.len() - i,
    {
        rest.push(rv[i]);
        assert(rv@.subrange(2, i + 1) == rv@.subrange(2, i as int).push(rv@[i as int]));
        i = i + 1;
    }
    assert(rest@ == ref_str@.skip(2));
    let parts = segments_exec(&rest);
    let ghost ps = parts.deep_view();
    let mut current: &'a Json = spec;
    let mut k: usize = 0;
    assert(ps.skip(0) == ps);
    while k < parts.len()
        invariant
            0 <= k <= parts@.len(),
            ps == parts.deep_view(),
            ps == segments(ref_str@.skip(2)),
            walk(ps, jv(*spec)) == walk(ps.skip(k as int), jv(*current)),
        decreases parts@.len() - k,
    {
        let key = string_of(&parts[k]);
        assert(ps.skip(k as int)[0] == ps[k as int]);
        assert(ps[k as int] == parts@[k as int]@);
        match get(current, key.as_str()) {
            Some(next) => {
                assert(ps.skip(k as int).drop_first() == ps.skip(k + 1));
                current = next;
            },
            None => {
                return None;
            },
        }
        k = k + 1;
    }
    assert(ps.skip(k as int) =~= Seq::<Seq<char>>::empty());
    Some(current)
}

/// The target of the `$ref` of an object's entries, when it has a string
/// `$ref` that resolves within `root`.
pub open spec fn ref_target(es: Seq<(Seq<char>, JsonSpec)>, root: JsonSpec) -> Option<JsonSpec> {
    match entries_get(es, "$ref"@) {
        Some(JsonSpec::Str(r)) => resolve_ref_spec(r, root),
        _ => None,
    }
}

/// `v` with every resolvable `$ref` object replaced by its (resolved) target,
/// following at most `fuel` references along any path; `None` when that is not
/// enough.
pub open spec fn resolve_fuel(v: JsonSpec, root: JsonSpec, fuel: nat) -> Option<JsonSpec>
    decreases fuel, v, 2nat,
{
    match v {
        JsonSpec::Object(es) => match ref_target(es, root) {
            Some(t) => if fuel == 0 {
                None
            } else {
                resolve_fuel(t, root, (fuel - 1) as nat)
            },
            None => match resolve_entries(es, root, fuel) {
                Some(r) => Some(JsonSpec::Object(r)),
                None => None,
            },
        },
        JsonSpec::Array(xs) => match resolve_items(xs, root, fuel) {
            Some(r) => Some(JsonSpec::Array(r)),
            None => None,
        },
        _ => Some(v),
    }
}

/// The entries with their values resolved, in order.
pub open spec fn resolve_entries(es: Seq<(Seq<char>, JsonSpec)>, root: JsonSpec, fuel: nat) -> Option<
    Seq<(Seq<char>, JsonSpec)>,
>
    decreases fuel, es, 1nat,
{
    if es.len() == 0 {
        Some(seq![])
    } else {
        match resolve_entries(es.drop_last(), root, fuel) {
            Some(a) => match resolve_fuel(es.last().1, root, fuel) {
                Some(b) => Some(a.push((es.last().0, b))),
                None => None,
            },
            None => None,
        }
    }
}

/// The items resolved, in order.
pub open spec fn resolve_items(xs: Seq<JsonSpec>, root: JsonSpec, fuel: nat) -> Option<Seq<JsonSpec>>
    decreases fuel, xs, 1nat,
{
    if xs.len() == 0 {
        Some(seq![])
    } else {
        match resolve_items(xs.drop_last(), root, fuel) {
            Some(a) => match resolve_fuel(xs.last(), root, fuel) {
                Some(b) => Some(a.push(b)),
                None => None,
            },
            None => None,
        }
    }
}

proof fn lemma_jv_object(v: Vec<(String, Json)>)
    ensures
        jv(Json::Object(v)) == JsonSpec::Object(entries_view(v@)),
{
}

proof fn lemma_jv_array(v: Vec<Json>)
    ensures
        jv(Json::Array(v)) == JsonSpec::Array(items_view(v@)),
{
}

/// A copy of a JSON value.
pub fn json_clone(j: &Json) -> (r: Json)
    ensures
        jv(r) == jv(*j),
    decreases j,
{
    match j {
        Json::Null => Json::Null,
        Json::Bool(b) => Json::Bool(*b),
        Json::Number(n) => Json::Number(n.clone()),
        Json::Str(s) => Json::Str(s.clone()),
        Json::Array(xs) => {
            let mut out: Vec<Json> = Vec::new();
            let mut i: usize = 0;
            while i < xs.len()
                invariant
                    0 <= i <= xs@.len(),
                    out@.len() == i,
                    forall|k: int| 0 <= k < i ==> #[trigger] jv(out@[k]) == jv(xs@[k]),
                    *j == Json::Array(*xs),
                decreases xs@.len() - i,
            {
                assert(decreases_to!(*j => (*j)->Array_0));
                assert(decreases_to!(*xs => xs@));
                assert(decreases_to!(xs@ => xs@[i as int]));
                assert(decreases_to!(*j => xs@[i as int]));
                let c = json_clone(&xs[i]);
                out.push(c);
                i = i + 1;
            }
            proof {
                lemma_items_view(out@);
                lemma_items_view(xs@);
                assert(items_view(out@) =~= items_view(xs@));
            }
            Json::Array(out)
        },
        Json::Object(es) => {
            let mut out: Vec<(String, Json)> = Vec::new();
            let mut i: usize = 0;
            while i < es.len()
                invariant
                    0 <= i <= es@.len(),
                    out@.len() == i,
                    forall|k: int| 0 <= k < i ==> #[trigger] out@[k].0@ == es@[k].0@ && jv(out@[k].1) == jv(es@[k].1),
                    *j == Json::Object(*es),
                decreases es@.len() - i,
            {
                assert(decreases_to!(*j => (*j)->Object_0));
                assert(decreases_to!(*es => es@));
                assert(decreases_to!(es@ => es@[i as int]));
                assert(decreases_to!(es@[i as int] => es@[i as int].1));
                assert(decreases_to!(*j => es@[i as int].1));
                let key = es[i].0.clone();
                let c = json_clone(&es[i].1);
                out.push((key, c));
                i = i + 1;
            }
            proof {
                lemma_entries_view(out@);
                lemma_entries_view(es@);
                assert(entries_view(out@) =~= entries_view(es@));
            }
            Json::Object(out)
        },
    }
}

proof fn lemma_entries_prefix(es: Seq<(Seq<char>, JsonSpec)>, root: JsonSpec, fuel: nat, i: int)
    requires
        resolve_entries(es, root, fuel) is Some,
        0 <= i <= es.len(),
    ensures
        resolve_entries(es.take(i), root, fuel) is Some,
        i < es.len() ==> resolve_fuel(es[i].1, root, fuel) is Some,
    decreases es.len(),
{
    if es.len() > 0 {
        if i == es.len() {
            assert(es.take(i) == es);
        } else {
            assert(es.drop_last().take(i) == es.take(i));
            if i < es.len() - 1 {
                assert(es.drop_last()[i] == es[i]);
            }
            lemma_entries_prefix(es.drop_last(), root, fuel, i);
        }
    }
}

proof fn lemma_items_prefix(xs: Seq<JsonSpec>, root: JsonSpec, fuel: nat, i: int)
    requires
        resolve_items(xs, root, fuel) is Some,
        0 <= i <= xs.len(),
    ensures
        resolve_items(xs.take(i), root, fuel) is Some,
        i < xs.len() ==> resolve_fuel(xs[i], root, fuel) is Some,
    decreases xs.len(),
{
    if xs.len() > 0 {
        if i == xs.len() {
            assert(xs.take(i) == xs);
        } else {
            assert(xs.drop_last().take(i) == xs.take(i));
            if i < xs.len() - 1 {
                assert(xs.drop_last()[i] == xs[i]);
            }
            lemma_items_prefix(xs.drop_last(), root, fuel, i);
        }
    }
}

#[verifier::spinoff_prover]
fn resolve_refs_fuel(value: &Json, spec: &Json, Ghost(fuel): Ghost<nat>) -> (r: Json)
    requires
        resolve_fuel(jv(*value), jv(*spec), fuel) is Some,
    ensures
        jv(r) == resolve_fuel(jv(*value), jv(*spec), fuel).unwrap(),
    decreases fuel, value,
{
    let ghost root = jv(*spec);
    match value {
        Json::Object(es) => {
            proof {
                lemma_jv_object(*es);
            }
            let ghost sv = entries_view(es@);
            proof {
                lemma_entries_view(es@);
            }
            let target: Option<&Json> = match get(value, "$ref") {
                Some(Json::Str(r)) => resolve_ref(r.as_str(), spec),
                _ => None,
            };
            match target {
                Some(t) => {
                    assert(ref_target(sv, root) == Some(jv(*t)));
                    resolve_refs_fuel(t, spec, Ghost((fuel - 1) as nat))
                },
                None => {
                    assert(ref_target(sv, root) is None);
                    let mut out: Vec<(String, Json)> = Vec::new();
                    let mut i: usize = 0;
                    while i < es.len()
                        invariant
                            0 <= i <= es@.len(),
                            sv == entries_view(es@),
                            sv.len() == es@.len(),
                            root == jv(*spec),
                            resolve_entries(sv, root, fuel) is Some,
                            resolve_entries(sv.take(i as int), root, fuel) == Some(entries_view(out@)),
                            *value == Json::Object(*es),
                        decreases es@.len() - i,
                    {
                        assert(decreases_to!(*value => (*value)->Object_0));
                        assert(decreases_to!(*es => es@));
                        assert(decreases_to!(es@ => es@[i as int]));
                        assert(decreases_to!(es@[i as int] => es@[i as int].1));
                        assert(decreases_to!(*value => es@[i as int].1));
                        proof {
                            lemma_entries_prefix(sv, root, fuel, i as int);
                            lemma_entries_view(es@);
                            assert(sv[i as int] == (es@[i as int].0@, jv(es@[i as int].1)));
                            assert(sv.take(i + 1).drop_last() == sv.take(i as int));
                            assert(sv.take(i + 1).last() == sv[i as int]);
                        }
                        let key = es[i].0.clone();
                        let c = resolve_refs_fuel(&es[i].1, spec, Ghost(fuel));
                        let ghost before = out@;
                        out.push((key, c));
                        assert(out@.drop_last() =~= before);
                        i = i + 1;
                    }
                    assert(sv.take(i as int) == sv);
                    proof {
                        lemma_jv_object(out);
                    }
                    Json::Object(out)
                },
            }
        },
        Json::Array(xs) => {
            proof {
                lemma_jv_array(*xs);
            }
            let ghost sv = items_view(xs@);
            proof {
                lemma_items_view(xs@);
            }
            let mut out: Vec<Json> = Vec::new();
            let mut i: usize = 0;
            while i < xs.len()
                invariant
                    0 <= i <= xs@.len(),
                    sv == items_view(xs@),
                    sv.len() == xs@.len(),
                    root == jv(*spec),
                    resolve_items(sv, root, fuel) is Some,
                    resolve_items(sv.take(i as int), root, fuel) == Some(items_view(out@)),
                    *value == Json::Array(*xs),
                decreases xs@.len() - i,
            {
                assert(decreases_to!(*value => (*value)->Array_0));
                assert(decreases_to!(*xs => xs@));
                assert(decreases_to!(xs@ => xs@[i as int]));
                assert(decreases_to!(*value => xs@[i as int]));
                proof {
                    lemma_items_prefix(sv, root, fuel, i as int);
                    lemma_items_view(xs@);
                    assert(sv[i as int] == jv(xs@[i as int]));
                    assert(sv.take(i + 1).drop_last() == sv.take(i as int));
                    assert(sv.take(i + 1).last() == sv[i as int]);
                }
                let c = resolve_refs_fuel(&xs[i], spec, Ghost(fuel));
                let ghost before = out@;
                out.push(c);
                assert(out@.drop_last() =~= before);
                i = i + 1;
            }
            assert(sv.take(i as int) == sv);
            proof {
                lemma_jv_array(out);
            }
            Json::Array(out)
        },
        _ => json_clone(value),
    }
}

/// Whether every `$ref` in `value` resolves within `spec` following at most
/// `fuel` references along any path.
#[verifier::spinoff_prover]
pub fn resolves_within(value: &Json, spec: &Json, fuel: u64) -> (r: bool)
    ensures
        r == (resolve_fuel(jv(*value), jv(*spec), fuel as nat) is Some),
    decreases fuel, value,
{
    let ghost root = jv(*spec);
    match value {
        Json::Object(es) => {
            proof {
                lemma_jv_object(*es);
            }
            let ghost sv = entries_view(es@);
            proof {
                lemma_entries_view(es@);
            }
            let target: Option<&Json> = match get(value, "$ref") {
                Some(Json::Str(r)) => resolve_ref(r.as_str(), spec),
                _ => None,
            };
            match target {
                Some(t) => {
                    assert(ref_target(sv, root) == Some(jv(*t)));
                    if fuel == 0 {
                        false
                    } else {
                        resolves_within(t, spec, fuel - 1)
                    }
                },
                None => {
                    assert(ref_target(sv, root) is None);
                    let mut i: usize = 0;
                    while i < es.len()
                        invariant
                            0 <= i <= es@.len(),
                            sv == entries_view(es@),
                            sv.len() == es@.len(),
                            root == jv(*spec),
                            resolve_entries(sv.take(i as int), root, fuel as nat) is Some,
                            ref_target(sv, root) is None,
                            *value == Json::Object(*es),
                        decreases es@.len() - i,
                    {
                        assert(decreases_to!(*value => (*value)->Object_0));
                        assert(decreases_to!(*es => es@));
                        assert(decreases_to!(es@ => es@[i as int]));
                        assert(decreases_to!(es@[i as int] => es@[i as int].1));
                        assert(decreases_to!(*value => es@[i as int].1));
                        proof {
                            lemma_entries_view(es@);
                            assert(sv[i as int] == (es@[i as int].0@, jv(es@[i as int].1)));
                            assert(sv.take(i + 1).drop_last() == sv.take(i as int));
                            assert(sv.take(i + 1).last() == sv[i as int]);
                        }
                        if !resolves_within(&es[i].1, spec, fuel) {
                            proof {
                                assert(resolve_fuel(sv[i as int].1, root, fuel as nat) is None);
                                if resolve_entries(sv, root, fuel as nat) is Some {
                                    lemma_entries_prefix(sv, root, fuel as nat, i as int);
                                }
                                assert(jv(*value) == JsonSpec::Object(sv));
                            }
                            return false;
                        }
                        i = i + 1;
                    }
                    assert(sv.take(i as int) == sv);
                    true
                },
            }
        },
        Json::Array(xs) => {
            proof {
                lemma_jv_array(*xs);
            }
            let ghost sv = items_view(xs@);
            proof {
                lemma_items_view(xs@);
            }
            let mut i: usize = 0;
            while i < xs.len()
                invariant
                    0 <= i <= xs@.len(),
                    sv == items_view(xs@),
                    sv.len() == xs@.len(),
                    root == jv(*spec),
                    resolve_items(sv.take(i as int), root, fuel as nat) is Some,
                    *value == Json::Array(*xs),
                decreases xs@.len() - i,
            {
                assert(decreases_to!(*value => (*value)->Array_0));
                assert(decreases_to!(*xs => xs@));
                assert(decreases_to!(xs@ => xs@[i as int]));
                assert(decreases_to!(*value => xs@[i as int]));
                proof {
                    lemma_items_view(xs@);
                    assert(sv[i as int] == jv(xs@[i as int]));
                    assert(sv.take(i + 1).drop_last() == sv.take(i as int));
                    assert(sv.take(i + 1).last() == sv[i as int]);
                }
                if !resolves_within(&xs[i], spec, fuel) {
                    proof {
                        if resolve_items(sv, root, fuel as nat) is Some {
                            lemma_items_prefix(sv, root, fuel as nat, i as int);
                        }
                    }
                    return false;
                }
                i = i + 1;
            }
            assert(sv.take(i as int) == sv);
            true
        },
        _ => true,
    }
}

/// Resolving every `$ref` in `v` within `root` terminates: some bound on the
/// number of references followed along any path suffices.
pub open spec fn refs_resolvable(v: JsonSpec, root: JsonSpec) -> bool {
    exists|fuel: nat| resolve_fuel(v, root, fuel) is Some
}

/// `v` with every resolvable `$ref` object replaced by its resolved target.
pub open spec fn resolved(v: JsonSpec, root: JsonSpec) -> JsonSpec {
    resolve_fuel(v, root, choose|fuel: nat| resolve_fuel(v, root, fuel) is Some).unwrap()
}

/// Recursively resolve all `$ref` pointers in a JSON value using the full spec.
///
/// If a `$ref` object is encountered, it is replaced by the referenced schema
/// (itself recursively resolved). All other values are traversed unchanged.
/// References that lead back to themselves never finish resolving; such values
/// are excluded.
pub fn resolve_refs(value: &Json, spec: &Json) -> (r: Json)
    requires
        refs_resolvable(jv(*value), jv(*spec)),
    ensures
        jv(r) == resolved(jv(*value), jv(*spec)),
{
    let ghost fuel = choose|fuel: nat| resolve_fuel(jv(*value), jv(*spec), fuel) is Some;
    resolve_refs_fuel(value, spec, Ghost(fuel))
}


/// Appending an entry appends its view.
pub proof fn lemma_entries_push(s: Seq<(String, Json)>, e: (String, Json))
    ensures
        entries_view(s.push(e)) == entries_view(s).push((e.0@, jv(e.1))),
{
    assert(s.push(e).drop_last() =~= s);
}

/// Appending an item appends its view.
pub proof fn lemma_items_push(s: Seq<Json>, x: Json)
    ensures
        items_view(s.push(x)) == items_view(s).push(jv(x)),
{
    assert(s.push(x).drop_last() =~= s);
}

/// A JSON string holding `s`.
pub fn json_str(s: &str) -> (j: Json)
    ensures
        jv(j) == JsonSpec::Str(s@),
{
    Json::Str(String::from_str(s))
}

/// Appends the entry `k: v` to object entries, without looking for an earlier `k`.
pub fn push_entry(es: &mut Vec<(String, Json)>, k: &str, v: Json)
    ensures
        entries_view(final(es)@) == entries_view(old(es)@).push((k@, jv(v))),
{
    let key = String::from_str(k);
    proof {
        lemma_entries_push(es@, (key, v));
    }
    es.push((key, v));
}

/// Appends an item to array items.
pub fn push_item(items: &mut Vec<Json>, v: Json)
    ensures
        items_view(final(items)@) == items_view(old(items)@).push(jv(v)),
{
    proof {
        lemma_items_push(items@, v);
    }
    items.push(v);
}

/// The string that a value holds, if it is a string (`Value::as_str`).
pub open spec fn json_as_str(j: Option<JsonSpec>) -> Option<Seq<char>> {
    match j {
        Some(JsonSpec::Str(s)) => Some(s),
        _ => None,
    }
}

/// The boolean that a value holds, if it is one (`Value::as_bool`).
pub open spec fn json_as_bool(j: Option<JsonSpec>) -> Option<bool> {
    match j {
        Some(JsonSpec::Bool(b)) => Some(b),
        _ => None,
    }
}

pub open spec fn is_digit(c: char) -> bool {
    '0' <= c && c <= '9'
}

/// The value of a string of decimal digits.
pub open spec fn digits_value(s: Seq<char>) -> nat
    decreases s.len(),
{
    if s.len() == 0 {
        0
    } else {
        digits_value(s.drop_last()) * 10 + ((s.last() as int - '0' as int) as nat)
    }
}

/// The unsigned integer that a number holds, if it is written as plain decimal
/// digits and fits in 64 bits (`Value::as_u64`). Numbers with a sign, a
/// fraction or an exponent hold no unsigned integer.
pub open spec fn number_as_u64(text: Seq<char>) -> Option<u64> {
    if text.len() > 0 && (forall|i: int| 0 <= i < text.len() ==> is_digit(#[trigger] text[i]))
        && digits_value(text) <= u64::MAX {
        Some(digits_value(text) as u64)
    } else {
        None
    }
}

/// The unsigned integer that a value holds, if it holds one (`Value::as_u64`).
pub open spec fn json_as_u64(j: Option<JsonSpec>) -> Option<u64> {
    match j {
        Some(JsonSpec::Number(text)) => number_as_u64(text),
        _ => None,
    }
}

proof fn lemma_digits_grow(s: Seq<char>, k: int)
    requires
        0 <= k <= s.len(),
        forall|i: int| 0 <= i < s.len() ==> is_digit(#[trigger] s[i]),
    ensures
        digits_value(s.take(k)) <= digits_value(s),
    decreases s.len() - k,
{
    if k < s.len() {
        lemma_digits_grow(s, k + 1);
        assert(s.take(k + 1).drop_last() =~= s.take(k));
        assert(is_digit(s[k]));
    } else {
        assert(s.take(k) =~= s);
    }
}

/// Reads a number written as plain decimal digits that fits in 64 bits.
pub fn number_to_u64(text: &str) -> (r: Option<u64>)
    ensures
        r == number_as_u64(text@),
{
    let cs = chars_of(text);
    if cs.len() == 0 {
        return None;
    }
    let mut value: u64 = 0;
    let mut i: usize = 0;
    while i < cs.len()
        invariant
            0 <= i <= cs@.len(),
            cs@ == text@,
            forall|m: int| 0 <= m < i ==> is_digit(#[trigger] cs@[m]),
            value == digits_value(cs@.take(i as int)),
        decreases cs@.len() - i,
    {
        let c = cs[i];
        if !('0' <= c && c <= '9') {
            assert(!is_digit(text@[i as int]));
            return None;
        }
        let d: u64 = (c as u64) - ('0' as u64);
        assert(cs@.take(i + 1).drop_last() =~= cs@.take(i as int));
        if value > (u64::MAX - d) / 10 {
            proof {
                assert(digits_value(cs@.take(i + 1)) > u64::MAX);
                if forall|m: int| 0 <= m < cs@.len() ==> is_digit(#[trigger] cs@[m]) {
                    lemma_digits_grow(cs@, i + 1);
                }
            }
            return None;
        }
        value = value * 10 + d;
        i = i + 1;
    }
    assert(cs@.take(i as int) =~= cs@);
    Some(value)
}

/// The string at key `k` of an object, if there is one (`value[k].as_str()`).
pub fn get_str<'a>(j: &'a Json, k: &str) -> (r: Option<&'a str>)
    ensures
        match r {
            Some(s) => json_as_str(json_get(jv(*j), k@)) == Some(s@),
            None => json_as_str(json_get(jv(*j), k@)) is None,
        },
{
    match get(j, k) {
        Some(Json::Str(s)) => Some(s.as_str()),
        _ => None,
    }
}

/// The boolean at key `k` of an object, if there is one (`value[k].as_bool()`).
pub fn get_bool(j: &Json, k: &str) -> (r: Option<bool>)
    ensures
        r == json_as_bool(json_get(jv(*j), k@)),
{
    match get(j, k) {
        Some(Json::Bool(b)) => Some(*b),
        _ => None,
    }
}

/// The unsigned integer at key `k` of an object, if there is one
/// (`value[k].as_u64()`).
pub fn get_u64(j: &Json, k: &str) -> (r: Option<u64>)
    ensures
        r == json_as_u64(json_get(jv(*j), k@)),
{
    match get(j, k) {
        Some(Json::Number(n)) => number_to_u64(n.as_str()),
        _ => None,
    }
}

} // verus!
