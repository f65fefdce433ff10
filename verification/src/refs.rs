//! What resolving `$ref` pointers leaves behind: in a document whose `$ref`
//! entries all hold strings, no object of the result still carries a `$ref`
//! that resolves, so every schema it can reach stands inline.
use vstd::prelude::*;
use crate::json::{entries_get, json_get, ref_target, resolve_entries, resolve_fuel, resolve_items,
    resolve_ref_spec, resolved, refs_resolvable, walk, JsonSpec};

verus! {

/// Every `$ref` entry of `v`, at any depth, holds a string.
pub open spec fn refs_are_strings(v: JsonSpec) -> bool
    decreases v, 2nat,
{
    match v {
        JsonSpec::Object(es) => entries_refs_are_strings(es),
        JsonSpec::Array(xs) => items_refs_are_strings(xs),
        _ => true,
    }
}

/// Every `$ref` entry among the entries, and within their values, holds a string.
pub open spec fn entries_refs_are_strings(es: Seq<(Seq<char>, JsonSpec)>) -> bool
    decreases es, 1nat,
{
    if es.len() == 0 {
        true
    } else {
        &&& entries_refs_are_strings(es.drop_last())
        &&& (es.last().0 == "$ref"@ ==> es.last().1 is Str)
        &&& refs_are_strings(es.last().1)
    }
}

/// Every `$ref` entry within the items holds a string.
pub open spec fn items_refs_are_strings(xs: Seq<JsonSpec>) -> bool
    decreases xs, 1nat,
{
    if xs.len() == 0 {
        true
    } else {
        items_refs_are_strings(xs.drop_last()) && refs_are_strings(xs.last())
    }
}

/// No object of `v`, at any depth, carries a `$ref` that resolves within `root`.
pub open spec fn no_live_refs(v: JsonSpec, root: JsonSpec) -> bool
    decreases v, 2nat,
{
    match v {
        JsonSpec::Object(es) => ref_target(es, root) is None && entries_no_live_refs(es, root),
        JsonSpec::Array(xs) => items_no_live_refs(xs, root),
        _ => true,
    }
}

/// No value among the entries carries a `$ref` that resolves within `root`.
pub open spec fn entries_no_live_refs(es: Seq<(Seq<char>, JsonSpec)>, root: JsonSpec) -> bool
    decreases es, 1nat,
{
    if es.len() == 0 {
        true
    } else {
        entries_no_live_refs(es.drop_last(), root) && no_live_refs(es.last().1, root)
    }
}

/// No item carries a `$ref` that resolves within `root`.
pub open spec fn items_no_live_refs(xs: Seq<JsonSpec>, root: JsonSpec) -> bool
    decreases xs, 1nat,
{
    if xs.len() == 0 {
        true
    } else {
        items_no_live_refs(xs.drop_last(), root) && no_live_refs(xs.last(), root)
    }
}

/// One entry whose `$ref`, if it is one, holds a string, as do those within its value.
pub open spec fn entry_refs_are_strings(e: (Seq<char>, JsonSpec)) -> bool {
    (e.0 == "$ref"@ ==> e.1 is Str) && refs_are_strings(e.1)
}

proof fn lemma_entries_strings_index(es: Seq<(Seq<char>, JsonSpec)>)
    ensures
        entries_refs_are_strings(es) <==> forall|i: int|
            0 <= i < es.len() ==> entry_refs_are_strings(#[trigger] es[i]),
    decreases es.len(),
{
    if es.len() > 0 {
        let d = es.drop_last();
        lemma_entries_strings_index(d);
        assert(entries_refs_are_strings(es) == (entries_refs_are_strings(d) && entry_refs_are_strings(
            es[es.len() - 1],
        )));
        if entries_refs_are_strings(es) {
            assert forall|i: int| 0 <= i < es.len() implies entry_refs_are_strings(#[trigger] es[i]) by {
                if i < d.len() {
                    assert(d[i] == es[i]);
                }
            }
        }
        if forall|i: int| 0 <= i < es.len() ==> entry_refs_are_strings(#[trigger] es[i]) {
            assert forall|i: int| 0 <= i < d.len() implies entry_refs_are_strings(#[trigger] d[i]) by {
                assert(d[i] == es[i]);
            }
            assert(entry_refs_are_strings(es[es.len() - 1]));
        }
    }
}

proof fn lemma_items_strings_index(xs: Seq<JsonSpec>)
    ensures
        items_refs_are_strings(xs) <==> forall|i: int| 0 <= i < xs.len() ==> refs_are_strings(#[trigger] xs[i]),
    decreases xs.len(),
{
    if xs.len() > 0 {
        let d = xs.drop_last();
        lemma_items_strings_index(d);
        if items_refs_are_strings(xs) {
            assert forall|i: int| 0 <= i < xs.len() implies refs_are_strings(#[trigger] xs[i]) by {
                if i < d.len() {
                    assert(d[i] == xs[i]);
                }
            }
        }
        if forall|i: int| 0 <= i < xs.len() ==> refs_are_strings(#[trigger] xs[i]) {
            assert forall|i: int| 0 <= i < d.len() implies refs_are_strings(#[trigger] d[i]) by {
                assert(d[i] == xs[i]);
            }
            assert(refs_are_strings(xs[xs.len() - 1]));
        }
    }
}

/// Where a key is first found among object entries.
proof fn lemma_entries_get_first(es: Seq<(Seq<char>, JsonSpec)>, k: Seq<char>)
    ensures
        entries_get(es, k) is None <==> forall|i: int| 0 <= i < es.len() ==> #[trigger] es[i].0 != k,
        entries_get(es, k) matches Some(x) ==> exists|i: int|
            0 <= i < es.len() && #[trigger] es[i].0 == k && es[i].1 == x && forall|j: int|
                0 <= j < i ==> es[j].0 != k,
    decreases es.len(),
{
    if es.len() > 0 {
        let t = es.drop_first();
        lemma_entries_get_first(t, k);
        assert forall|i: int| 0 <= i < t.len() implies #[trigger] t[i] == es[i + 1] by {}
        if es[0].0 == k {
            assert(es[0].0 == k && es[0].1 == es[0].1);
        } else {
            if entries_get(t, k) is None {
                assert forall|i: int| 0 <= i < es.len() implies #[trigger] es[i].0 != k by {
                    if i > 0 {
                        assert(t[i - 1] == es[i]);
                    }
                }
            } else {
                let x = entries_get(t, k).unwrap();
                let i = choose|i: int|
                    0 <= i < t.len() && #[trigger] t[i].0 == k && t[i].1 == x && forall|j: int|
                        0 <= j < i ==> t[j].0 != k;
                assert(es[i + 1] == t[i]);
                assert forall|j: int| 0 <= j < i + 1 implies es[j].0 != k by {
                    if j > 0 {
                        assert(t[j - 1] == es[j]);
                    }
                }
                assert(es[i + 1].0 == k);
                assert(t[i].0 == k);
                assert(exists|m: int| 0 <= m < t.len() && #[trigger] t[m].0 == k);
            }
        }
    }
}

/// A value found at a key of an object whose `$ref` entries hold strings has
/// the same property.
proof fn lemma_get_keeps_strings(j: JsonSpec, k: Seq<char>)
    requires
        refs_are_strings(j),
        json_get(j, k) is Some,
    ensures
        refs_are_strings(json_get(j, k).unwrap()),
{
    match j {
        JsonSpec::Object(es) => {
            lemma_entries_get_first(es, k);
            lemma_entries_strings_index(es);
            let x = entries_get(es, k).unwrap();
            let i = choose|i: int|
                0 <= i < es.len() && #[trigger] es[i].0 == k && es[i].1 == x && forall|m: int|
                    0 <= m < i ==> es[m].0 != k;
            assert(entry_refs_are_strings(es[i]));
        },
        _ => {},
    }
}

proof fn lemma_walk_keeps_strings(parts: Seq<Seq<char>>, j: JsonSpec)
    requires
        refs_are_strings(j),
        walk(parts, j) is Some,
    ensures
        refs_are_strings(walk(parts, j).unwrap()),
    decreases parts.len(),
{
    if parts.len() > 0 {
        let next = json_get(j, parts[0]).unwrap();
        lemma_get_keeps_strings(j, parts[0]);
        lemma_walk_keeps_strings(parts.drop_first(), next);
    }
}

proof fn lemma_target_keeps_strings(es: Seq<(Seq<char>, JsonSpec)>, root: JsonSpec)
    requires
        refs_are_strings(root),
        ref_target(es, root) is Some,
    ensures
        refs_are_strings(ref_target(es, root).unwrap()),
{
    let r = entries_get(es, "$ref"@)->Some_0->Str_0;
    if r.len() >= 2 && r[0] == '#' && r[1] == '/' {
        lemma_walk_keeps_strings(crate::path::segments(r.skip(2)), root);
    }
}

proof fn lemma_resolve_entries_index(es: Seq<(Seq<char>, JsonSpec)>, root: JsonSpec, fuel: nat)
    requires
        resolve_entries(es, root, fuel) is Some,
    ensures
        resolve_entries(es, root, fuel).unwrap().len() == es.len(),
        forall|i: int|
            0 <= i < es.len() ==> (#[trigger] resolve_entries(es, root, fuel).unwrap()[i]).0 == es[i].0
                && resolve_fuel(es[i].1, root, fuel) == Some(resolve_entries(es, root, fuel).unwrap()[i].1),
    decreases es.len(),
{
    if es.len() > 0 {
        let d = es.drop_last();
        lemma_resolve_entries_index(d, root, fuel);
        let a = resolve_entries(d, root, fuel).unwrap();
        let r = resolve_entries(es, root, fuel).unwrap();
        assert forall|i: int| 0 <= i < es.len() implies (#[trigger] r[i]).0 == es[i].0 && resolve_fuel(
            es[i].1,
            root,
            fuel,
        ) == Some(r[i].1) by {
            if i < d.len() {
                assert(r[i] == a[i]);
                assert(d[i] == es[i]);
            }
        }
    }
}

proof fn lemma_entries_no_live(es: Seq<(Seq<char>, JsonSpec)>, root: JsonSpec, fuel: nat)
    requires
        resolve_entries(es, root, fuel) is Some,
        entries_refs_are_strings(es),
        refs_are_strings(root),
    ensures
        entries_no_live_refs(resolve_entries(es, root, fuel).unwrap(), root),
    decreases fuel, es, 1nat,
{
    if es.len() > 0 {
        lemma_entries_no_live(es.drop_last(), root, fuel);
        lemma_no_live(es.last().1, root, fuel);
        let a = resolve_entries(es.drop_last(), root, fuel).unwrap();
        let r = resolve_entries(es, root, fuel).unwrap();
        assert(r.drop_last() =~= a);
    }
}

proof fn lemma_items_no_live(xs: Seq<JsonSpec>, root: JsonSpec, fuel: nat)
    requires
        resolve_items(xs, root, fuel) is Some,
        items_refs_are_strings(xs),
        refs_are_strings(root),
    ensures
        items_no_live_refs(resolve_items(xs, root, fuel).unwrap(), root),
    decreases fuel, xs, 1nat,
{
    if xs.len() > 0 {
        lemma_items_no_live(xs.drop_last(), root, fuel);
        lemma_no_live(xs.last(), root, fuel);
        let a = resolve_items(xs.drop_last(), root, fuel).unwrap();
        let r = resolve_items(xs, root, fuel).unwrap();
        assert(r.drop_last() =~= a);
    }
}

/// Resolving an object without a live `$ref` keeps its `$ref` entry, a string
/// that still resolves nowhere.
proof fn lemma_rebuilt_has_no_target(es: Seq<(Seq<char>, JsonSpec)>, root: JsonSpec, fuel: nat)
    requires
        resolve_entries(es, root, fuel) is Some,
        entries_refs_are_strings(es),
        ref_target(es, root) is None,
    ensures
        ref_target(resolve_entries(es, root, fuel).unwrap(), root) is None,
{
    let r = resolve_entries(es, root, fuel).unwrap();
    let k = "$ref"@;
    lemma_resolve_entries_index(es, root, fuel);
    lemma_entries_strings_index(es);
    lemma_entries_get_first(es, k);
    lemma_entries_get_first(r, k);
    if entries_get(es, k) is None {
        assert forall|i: int| 0 <= i < r.len() implies #[trigger] r[i].0 != k by {
            assert(r[i].0 == es[i].0);
        }
    } else {
        let x = entries_get(es, k).unwrap();
        let i = choose|i: int|
            0 <= i < es.len() && #[trigger] es[i].0 == k && es[i].1 == x && forall|j: int|
                0 <= j < i ==> es[j].0 != k;
        assert(r[i].0 == es[i].0);
        assert(entry_refs_are_strings(es[i]));
        assert(x is Str);
        assert(resolve_fuel(x, root, fuel) == Some(x));
        assert(r[i].1 == x);
        assert(entries_get(r, k) is Some) by {
            if entries_get(r, k) is None {
                assert(r[i].0 != k);
            }
        }
        let y = entries_get(r, k).unwrap();
        let m = choose|m: int|
            0 <= m < r.len() && #[trigger] r[m].0 == k && r[m].1 == y && forall|j: int|
                0 <= j < m ==> r[j].0 != k;
        assert(r[m].0 == es[m].0);
        if m < i {
            assert(es[m].0 != k);
        }
        if i < m {
            assert(r[i].0 != k);
        }
        assert(m == i);
        assert(y == x);
    }
}

proof fn lemma_no_live(v: JsonSpec, root: JsonSpec, fuel: nat)
    requires
        resolve_fuel(v, root, fuel) is Some,
        refs_are_strings(v),
        refs_are_strings(root),
    ensures
        no_live_refs(resolve_fuel(v, root, fuel).unwrap(), root),
    decreases fuel, v, 2nat,
{
    match v {
        JsonSpec::Object(es) => match ref_target(es, root) {
            Some(t) => {
                lemma_target_keeps_strings(es, root);
                lemma_no_live(t, root, (fuel - 1) as nat);
            },
            None => {
                lemma_entries_no_live(es, root, fuel);
                lemma_rebuilt_has_no_target(es, root, fuel);
            },
        },
        JsonSpec::Array(xs) => {
            lemma_items_no_live(xs, root, fuel);
        },
        _ => {},
    }
}

/// In a document whose `$ref` entries all hold strings, resolving the
/// references of a part of it leaves no object that carries a `$ref` which
/// still resolves: every reachable schema stands inline.
pub proof fn resolved_refs_are_inline(v: JsonSpec, root: JsonSpec)
    requires
        refs_resolvable(v, root),
        refs_are_strings(v),
        refs_are_strings(root),
    ensures
        no_live_refs(resolved(v, root), root),
{
    let fuel = choose|fuel: nat| resolve_fuel(v, root, fuel) is Some;
    lemma_no_live(v, root, fuel);
}

} // verus!
