//! Counting diagnostics by rule, most frequent first.
use vstd::prelude::*;
use crate::output::{text_or, DiagnosticView};
use crate::text::str_eq;

verus! {

/// The rule a diagnostic is counted under (`unknown` when it names none).
pub open spec fn rule_key(d: DiagnosticView) -> Seq<char> {
    text_or(d.rule, "unknown"@)
}

/// The rule keys of a sequence of diagnostics, in order.
pub open spec fn rule_keys(ds: Seq<DiagnosticView>) -> Seq<Seq<char>> {
    ds.map_values(|d: DiagnosticView| rule_key(d))
}

/// How many times `k` occurs in `keys`.
pub open spec fn occurrences(keys: Seq<Seq<char>>, k: Seq<char>) -> nat
    decreases keys.len(),
{
    if keys.len() == 0 {
        0
    } else {
        occurrences(keys.drop_last(), k) + if keys.last() == k {
            1nat
        } else {
            0nat
        }
    }
}

/// Lexicographic order of character sequences by code point (the order of
/// `str::cmp`, since UTF-8 preserves code point order).
pub open spec fn lex_lt(a: Seq<char>, b: Seq<char>) -> bool
    decreases a.len(),
{
    if a.len() == 0 {
        b.len() > 0
    } else if b.len() == 0 {
        false
    } else if (a[0] as u32) < (b[0] as u32) {
        true
    } else if (a[0] as u32) > (b[0] as u32) {
        false
    } else {
        lex_lt(a.drop_first(), b.drop_first())
    }
}

/// `a` comes before `b` in a tally: more occurrences first, then by rule name.
pub open spec fn tally_before(a: (Seq<char>, nat), b: (Seq<char>, nat)) -> bool {
    a.1 > b.1 || (a.1 == b.1 && lex_lt(a.0, b.0))
}

/// A tally entry seen as its rule's characters and its count.
pub open spec fn entry_view(e: (String, usize)) -> (Seq<char>, nat) {
    (e.0@, e.1 as nat)
}

/// `tally` counts `keys`: one entry per distinct key with its number of
/// occurrences, most frequent first and, among equals, by rule name.
pub open spec fn is_tally_of(tally: Seq<(String, usize)>, keys: Seq<Seq<char>>) -> bool {
    &&& forall|i: int|
        0 <= i < tally.len() ==> #[trigger] tally[i].1 == occurrences(keys, tally[i].0@)
            && keys.contains(tally[i].0@)
    &&& forall|k: Seq<char>|
        keys.contains(k) ==> exists|i: int| 0 <= i < tally.len() && #[trigger] tally[i].0@ == k
    &&& forall|i: int, j: int|
        0 <= i < j < tally.len() ==> tally_before(
            entry_view(#[trigger] tally[i]),
            entry_view(#[trigger] tally[j]),
        ) && tally[i].0@ != tally[j].0@
}

pub proof fn lemma_lex_irreflexive(a: Seq<char>)
    ensures
        !lex_lt(a, a),
    decreases a.len(),
{
    if a.len() > 0 {
        lemma_lex_irreflexive(a.drop_first());
    }
}

pub proof fn lemma_lex_transitive(a: Seq<char>, b: Seq<char>, c: Seq<char>)
    requires
        lex_lt(a, b),
        lex_lt(b, c),
    ensures
        lex_lt(a, c),
    decreases a.len(),
{
    if a.len() > 0 && b.len() > 0 && c.len() > 0 {
        if (a[0] as u32) == (b[0] as u32) && (b[0] as u32) == (c[0] as u32) {
            lemma_lex_transitive(a.drop_first(), b.drop_first(), c.drop_first());
        }
    }
}

pub proof fn lemma_lex_total(a: Seq<char>, b: Seq<char>)
    requires
        a != b,
    ensures
        lex_lt(a, b) || lex_lt(b, a),
    decreases a.len(),
{
    if a.len() > 0 && b.len() > 0 {
        if a[0] == b[0] {
            if a.drop_first() == b.drop_first() {
                assert(a =~= seq![a[0]] + a.drop_first());
                assert(b =~= seq![b[0]] + b.drop_first());
            }
            lemma_lex_total(a.drop_first(), b.drop_first());
        } else {
            assert((a[0] as u32) != (b[0] as u32)) by { vstd::utf8::char_u32_cast(a[0], a[0] as u32); vstd::utf8::char_u32_cast(b[0], b[0] as u32); }
        }
    } else if a.len() == 0 && b.len() == 0 {
        assert(a =~= b);
    }
}

pub proof fn lemma_lex_asymmetric(a: Seq<char>, b: Seq<char>)
    requires
        lex_lt(a, b),
    ensures
        !lex_lt(b, a),
{
    if lex_lt(b, a) {
        lemma_lex_transitive(a, b, a);
        lemma_lex_irreflexive(a);
    }
}

proof fn lemma_occurrences_bound(keys: Seq<Seq<char>>, k: Seq<char>)
    ensures
        occurrences(keys, k) <= keys.len(),
    decreases keys.len(),
{
    if keys.len() > 0 {
        lemma_occurrences_bound(keys.drop_last(), k);
    }
}

proof fn lemma_occurrences_absent(keys: Seq<Seq<char>>, k: Seq<char>)
    requires
        !keys.contains(k),
    ensures
        occurrences(keys, k) == 0,
    decreases keys.len(),
{
    if keys.len() > 0 {
        assert(!keys.drop_last().contains(k)) by {
            if keys.drop_last().contains(k) {
                let i = choose|i: int| 0 <= i < keys.drop_last().len() && keys.drop_last()[i] == k;
                assert(keys[i] == k);
            }
        }
        assert(keys[keys.len() - 1] == keys.last());
        lemma_occurrences_absent(keys.drop_last(), k);
    }
}

/// Whether entry `a` comes before entry `b` in a tally.
fn tally_before_exec(a: &(String, usize), b: &(String, usize)) -> (r: bool)
    ensures
        r == tally_before(entry_view(*a), entry_view(*b)),
{
    if a.1 > b.1 {
        true
    } else if a.1 == b.1 {
        lex_lt_exec(a.0.as_str(), b.0.as_str())
    } else {
        false
    }
}

/// Lexicographic comparison of two strings by code point.
pub fn lex_lt_exec(a: &str, b: &str) -> (r: bool)
    ensures
        r == lex_lt(a@, b@),
{
    let av = crate::text::chars_of(a);
    let bv = crate::text::chars_of(b);
    let mut i: usize = 0;
    assert(a@.skip(0) == a@);
    assert(b@.skip(0) == b@);
    while i < av.len() && i < bv.len()
        invariant
            0 <= i <= av@.len(),
            i <= bv@.len(),
            av@ == a@,
            bv@ == b@,
            lex_lt(a@, b@) == lex_lt(a@.skip(i as int), b@.skip(i as int)),
        decreases av@.len() - i,
    {
        let x = av[i] as u32;
        let y = bv[i] as u32;
        assert(a@.skip(i as int)[0] == a@[i as int]);
        assert(b@.skip(i as int)[0] == b@[i as int]);
        if x < y {
            return true;
        }
        if x > y {
            return false;
        }
        assert(a@.skip(i as int).drop_first() == a@.skip(i + 1));
        assert(b@.skip(i as int).drop_first() == b@.skip(i + 1));
        i = i + 1;
    }
    i < bv.len()
}

/// The rule key of a diagnostic.
fn rule_key_exec(d: &DiagnosticView) -> (r: String)
    ensures
        r@ == rule_key(*d),
{
    match &d.rule {
        Some(s) => s.clone(),
        None => String::from_str("unknown"),
    }
}

/// Counts diagnostics per rule in the order rules first appear.
fn count_in_order(diags: &Vec<DiagnosticView>) -> (r: Vec<(String, usize)>)
    ensures
        forall|i: int|
            0 <= i < r@.len() ==> #[trigger] r@[i].1 == occurrences(rule_keys(diags@), r@[i].0@)
                && rule_keys(diags@).contains(r@[i].0@),
        forall|k: Seq<char>|
            rule_keys(diags@).contains(k) ==> exists|i: int|
                0 <= i < r@.len() && #[trigger] r@[i].0@ == k,
        forall|i: int, j: int| 0 <= i < j < r@.len() ==> r@[i].0@ != r@[j].0@,
{
    let ghost keys = rule_keys(diags@);
    let mut counts: Vec<(String, usize)> = Vec::new();
    let mut n: usize = 0;
    while n < diags.len()
        invariant
            0 <= n <= diags@.len(),
            keys == rule_keys(diags@),
            keys.len() == diags@.len(),
            forall|i: int|
                0 <= i < counts@.len() ==> #[trigger] counts@[i].1 == occurrences(
                    keys.take(n as int),
                    counts@[i].0@,
                ) && keys.take(n as int).contains(counts@[i].0@),
            forall|k: Seq<char>|
                keys.take(n as int).contains(k) ==> exists|i: int|
                    0 <= i < counts@.len() && #[trigger] counts@[i].0@ == k,
            forall|i: int, j: int| 0 <= i < j < counts@.len() ==> counts@[i].0@ != counts@[j].0@,
        decreases diags@.len() - n,
    {
        let key = rule_key_exec(&diags[n]);
        let ghost prev = keys.take(n as int);
        let ghost next = keys.take(n + 1);
        assert(next.drop_last() == prev);
        assert(next.last() == key@);
        let mut found: Option<usize> = None;
        let mut j: usize = 0;
        while j < counts.len()
            invariant_except_break
                found is None,
            invariant
                0 <= j <= counts@.len(),
                forall|m: int| 0 <= m < j ==> counts@[m].0@ != key@,
            ensures
                found matches Some(f) ==> f < counts@.len() && counts@[f as int].0@ == key@,
                found is None ==> forall|m: int| 0 <= m < counts@.len() ==> counts@[m].0@ != key@,
            decreases counts@.len() - j,
        {
            if str_eq(counts[j].0.as_str(), key.as_str()) {
                found = Some(j);
                break;
            }
            j = j + 1;
        }
        let ghost old_counts = counts@;
        match found {
            Some(f) => {
                proof {
                    lemma_occurrences_bound(prev, key@);
                }
                let entry = &counts[f];
                let name = entry.0.clone();
                let c = entry.1 + 1;
                counts.set(f, (name, c));
                assert forall|i: int| 0 <= i < counts@.len() implies #[trigger] counts@[i].1
                    == occurrences(next, counts@[i].0@) && next.contains(counts@[i].0@) by {
                    assert(old_counts[i].1 == occurrences(prev, old_counts[i].0@));
                    assert(prev.contains(old_counts[i].0@));
                    let w = choose|w: int| 0 <= w < prev.len() && prev[w] == old_counts[i].0@;
                    assert(next[w] == prev[w]);
                    if i == f {
                        assert(counts@[i].0@ == key@);
                        assert(occurrences(next, key@) == occurrences(prev, key@) + 1);
                    } else {
                        assert(counts@[i] == old_counts[i]);
                        assert(old_counts[i].0@ != key@);
                        assert(occurrences(next, counts@[i].0@) == occurrences(prev, counts@[i].0@));
                    }
                }
                assert forall|k: Seq<char>| next.contains(k) implies exists|i: int|
                    0 <= i < counts@.len() && #[trigger] counts@[i].0@ == k by {
                    let w = choose|w: int| 0 <= w < next.len() && next[w] == k;
                    if w < n {
                        assert(prev[w] == k);
                        assert(prev.contains(k));
                        let i = choose|i: int|
                            0 <= i < old_counts.len() && #[trigger] old_counts[i].0@ == k;
                        assert(counts@[i].0@ == k);
                    } else {
                        assert(counts@[f as int].0@ == k);
                    }
                }
            },
            None => {
                proof {
                    lemma_occurrences_absent(prev, key@);
                }
                counts.push((key, 1));
                assert forall|i: int| 0 <= i < counts@.len() implies #[trigger] counts@[i].1
                    == occurrences(next, counts@[i].0@) && next.contains(counts@[i].0@) by {
                    if i < old_counts.len() {
                        assert(old_counts[i].1 == occurrences(prev, old_counts[i].0@));
                        assert(prev.contains(old_counts[i].0@));
                        let w = choose|w: int| 0 <= w < prev.len() && prev[w] == old_counts[i].0@;
                        assert(next[w] == prev[w]);
                    } else {
                        assert(next[n as int] == key@);
                    }
                }
                assert forall|k: Seq<char>| next.contains(k) implies exists|i: int|
                    0 <= i < counts@.len() && #[trigger] counts@[i].0@ == k by {
                    let w = choose|w: int| 0 <= w < next.len() && next[w] == k;
                    if w < n {
                        assert(prev[w] == k);
                        assert(prev.contains(k));
                        let i = choose|i: int|
                            0 <= i < old_counts.len() && #[trigger] old_counts[i].0@ == k;
                        assert(counts@[i].0@ == k);
                    } else {
                        assert(counts@[old_counts.len() as int].0@ == k);
                    }
                }
            },
        }
        n = n + 1;
    }
    assert(keys.take(n as int) == keys);
    counts
}

proof fn lemma_tally_total(a: (Seq<char>, nat), b: (Seq<char>, nat))
    requires
        a.0 != b.0,
    ensures
        tally_before(a, b) || tally_before(b, a),
{
    lemma_lex_total(a.0, b.0);
}

proof fn lemma_tally_transitive(a: (Seq<char>, nat), b: (Seq<char>, nat), c: (Seq<char>, nat))
    requires
        tally_before(a, b),
        tally_before(b, c),
    ensures
        tally_before(a, c),
{
    if a.1 == b.1 && b.1 == c.1 {
        lemma_lex_transitive(a.0, b.0, c.0);
    }
}

proof fn lemma_tally_asymmetric(a: (Seq<char>, nat), b: (Seq<char>, nat))
    requires
        tally_before(a, b),
    ensures
        !tally_before(b, a),
{
    if a.1 == b.1 {
        lemma_lex_asymmetric(a.0, b.0);
    }
}

/// Count diagnostics by rule, returning (rule, count) pairs sorted by count,
/// most frequent first, then by rule name. A diagnostic without a rule is
/// counted under `unknown`.
#[verifier::spinoff_prover]
pub fn count_by_rule(diags: &Vec<DiagnosticView>) -> (r: Vec<(String, usize)>)
    ensures
        is_tally_of(r@, rule_keys(diags@)),
{
    let ghost keys = rule_keys(diags@);
    let mut rem = count_in_order(diags);
    let mut out: Vec<(String, usize)> = Vec::new();
    while rem.len() > 0
        invariant
            forall|i: int|
                0 <= i < out@.len() ==> #[trigger] out@[i].1 == occurrences(keys, out@[i].0@)
                    && keys.contains(out@[i].0@),
            forall|i: int|
                0 <= i < rem@.len() ==> #[trigger] rem@[i].1 == occurrences(keys, rem@[i].0@)
                    && keys.contains(rem@[i].0@),
            forall|k: Seq<char>|
                keys.contains(k) ==> (exists|i: int| 0 <= i < out@.len() && #[trigger] out@[i].0@ == k)
                    || (exists|i: int| 0 <= i < rem@.len() && #[trigger] rem@[i].0@ == k),
            forall|i: int, j: int| 0 <= i < j < out@.len() ==> out@[i].0@ != out@[j].0@,
            forall|i: int, j: int| 0 <= i < j < rem@.len() ==> rem@[i].0@ != rem@[j].0@,
            forall|i: int, j: int|
                0 <= i < out@.len() && 0 <= j < rem@.len() ==> out@[i].0@ != rem@[j].0@,
            forall|i: int, j: int|
                0 <= i < j < out@.len() ==> tally_before(
                    entry_view(#[trigger] out@[i]),
                    entry_view(#[trigger] out@[j]),
                ),
            forall|i: int, j: int|
                0 <= i < out@.len() && 0 <= j < rem@.len() ==> tally_before(
                    entry_view(#[trigger] out@[i]),
                    entry_view(#[trigger] rem@[j]),
                ),
        decreases rem@.len(),
    {
        let mut best: usize = 0;
        let mut j: usize = 1;
        proof {
            lemma_lex_irreflexive(rem@[0].0@);
        }
        while j < rem.len()
            invariant
                0 <= best < rem@.len(),
                1 <= j <= rem@.len(),
                forall|m: int| 0 <= m < j ==> !tally_before(entry_view(#[trigger] rem@[m]), entry_view(rem@[best as int])),
                forall|i: int, k: int| 0 <= i < k < rem@.len() ==> rem@[i].0@ != rem@[k].0@,
            decreases rem@.len() - j,
        {
            if tally_before_exec(&rem[j], &rem[best]) {
                proof {
                    assert forall|m: int| 0 <= m < j + 1 implies !tally_before(
                        entry_view(#[trigger] rem@[m]),
                        entry_view(rem@[j as int]),
                    ) by {
                        if m < j {
                            if tally_before(entry_view(rem@[m]), entry_view(rem@[j as int])) {
                                lemma_tally_transitive(entry_view(rem@[m]), entry_view(rem@[j as int]), entry_view(rem@[best as int]));
                            }
                        } else {
                            lemma_lex_irreflexive(rem@[j as int].0@);
                        }
                    }
                }
                best = j;
            }
            j = j + 1;
        }
        let ghost old_rem = rem@;
        let ghost old_out = out@;
        let m = rem.remove(best);
        proof {
            old_rem.remove_ensures(best as int);
        }
        out.push(m);
        proof {
            let b = best as int;
            assert(out@ == old_out.push(old_rem[b]));
            assert forall|i: int, j: int|
                0 <= i < out@.len() && 0 <= j < rem@.len() implies tally_before(
                    entry_view(#[trigger] out@[i]),
                    entry_view(#[trigger] rem@[j]),
                ) by {
                let jj = if j < b { j } else { j + 1 };
                assert(rem@[j] == old_rem[jj]);
                if i < old_out.len() {
                    assert(out@[i] == old_out[i]);
                } else {
                    assert(old_rem[jj].0@ != old_rem[b].0@);
                    assert(!tally_before(entry_view(old_rem[jj]), entry_view(old_rem[b])));
                    lemma_tally_total(entry_view(old_rem[jj]), entry_view(old_rem[b]));
                }
            }
            assert forall|i: int, j: int|
                0 <= i < j < out@.len() implies tally_before(
                    entry_view(#[trigger] out@[i]),
                    entry_view(#[trigger] out@[j]),
                ) by {
                if j < old_out.len() {
                } else {
                    assert(out@[j] == old_rem[b]);
                    assert(out@[i] == old_out[i]);
                }
            }
            assert forall|k: Seq<char>| keys.contains(k) implies (exists|i: int|
                0 <= i < out@.len() && #[trigger] out@[i].0@ == k) || (exists|i: int|
                0 <= i < rem@.len() && #[trigger] rem@[i].0@ == k) by {
                if exists|i: int| 0 <= i < old_out.len() && #[trigger] old_out[i].0@ == k {
                    let i = choose|i: int| 0 <= i < old_out.len() && #[trigger] old_out[i].0@ == k;
                    assert(out@[i] == old_out[i]);
                } else {
                    let i = choose|i: int| 0 <= i < old_rem.len() && #[trigger] old_rem[i].0@ == k;
                    if i < b {
                        assert(rem@[i] == old_rem[i]);
                    } else if i == b {
                        assert(out@[old_out.len() as int] == old_rem[b]);
                    } else {
                        assert(rem@[i - 1] == old_rem[i]);
                    }
                }
            }
            assert forall|i: int| 0 <= i < rem@.len() implies #[trigger] rem@[i].1 == occurrences(keys, rem@[i].0@)
                && keys.contains(rem@[i].0@) by {
                if i < b {
                    assert(rem@[i] == old_rem[i]);
                } else {
                    assert(rem@[i] == old_rem[i + 1]);
                }
            }
            assert forall|i: int| 0 <= i < out@.len() implies #[trigger] out@[i].1 == occurrences(keys, out@[i].0@)
                && keys.contains(out@[i].0@) by {
                if i < old_out.len() {
                    assert(out@[i] == old_out[i]);
                }
            }
            assert forall|i: int, j: int| 0 <= i < j < rem@.len() implies rem@[i].0@ != rem@[j].0@ by {
                let ii = if i < b { i } else { i + 1 };
                let jj = if j < b { j } else { j + 1 };
                assert(rem@[i] == old_rem[ii]);
                assert(rem@[j] == old_rem[jj]);
            }
            assert forall|i: int, j: int| 0 <= i < j < out@.len() implies out@[i].0@ != out@[j].0@ by {
                if j < old_out.len() {
                    assert(out@[i] == old_out[i]);
                    assert(out@[j] == old_out[j]);
                } else {
                    assert(out@[i] == old_out[i]);
                    assert(out@[j] == old_rem[b]);
                }
            }
            assert forall|i: int, j: int|
                0 <= i < out@.len() && 0 <= j < rem@.len() implies out@[i].0@ != rem@[j].0@ by {
                let jj = if j < b { j } else { j + 1 };
                assert(rem@[j] == old_rem[jj]);
                if i < old_out.len() {
                    assert(out@[i] == old_out[i]);
                } else {
                    assert(out@[i] == old_rem[b]);
                }
            }
        }
    }
    proof {
        assert forall|i: int, j: int| 0 <= i < j < out@.len() implies tally_before(
            entry_view(#[trigger] out@[i]),
            entry_view(#[trigger] out@[j]),
        ) && out@[i].0@ != out@[j].0@ by {}
        assert forall|k: Seq<char>| keys.contains(k) implies exists|i: int|
            0 <= i < out@.len() && #[trigger] out@[i].0@ == k by {}
    }
    out
}

/// A tally seen as rule characters and counts.
pub open spec fn tally_view(t: Seq<(String, usize)>) -> Seq<(Seq<char>, nat)> {
    t.map_values(|e: (String, usize)| entry_view(e))
}

/// `v` counts `keys`: one entry per distinct key with its number of
/// occurrences, in tally order.
pub open spec fn is_tally_view(v: Seq<(Seq<char>, nat)>, keys: Seq<Seq<char>>) -> bool {
    &&& forall|i: int|
        0 <= i < v.len() ==> #[trigger] v[i].1 == occurrences(keys, v[i].0) && keys.contains(
            v[i].0,
        )
    &&& forall|k: Seq<char>|
        keys.contains(k) ==> exists|i: int| 0 <= i < v.len() && #[trigger] v[i].0 == k
    &&& forall|i: int, j: int|
        0 <= i < j < v.len() ==> tally_before(#[trigger] v[i], #[trigger] v[j])
}

/// The tally of `keys`: the one sequence that counts them in tally order.
pub open spec fn tally(keys: Seq<Seq<char>>) -> Seq<(Seq<char>, nat)> {
    choose|v: Seq<(Seq<char>, nat)>| is_tally_view(v, keys)
}

proof fn lemma_tally_of_view(t: Seq<(String, usize)>, keys: Seq<Seq<char>>)
    requires
        is_tally_of(t, keys),
    ensures
        is_tally_view(tally_view(t), keys),
{
    let v = tally_view(t);
    assert forall|i: int| 0 <= i < v.len() implies #[trigger] v[i].1 == occurrences(keys, v[i].0)
        && keys.contains(v[i].0) by {
        assert(v[i] == entry_view(t[i]));
        assert(t[i].1 == occurrences(keys, t[i].0@));
    }
    assert forall|k: Seq<char>| keys.contains(k) implies exists|i: int|
        0 <= i < v.len() && #[trigger] v[i].0 == k by {
        let i = choose|i: int| 0 <= i < t.len() && #[trigger] t[i].0@ == k;
        assert(v[i] == entry_view(t[i]));
        assert(v[i].0 == k);
    }
    assert forall|i: int, j: int| 0 <= i < j < v.len() implies tally_before(
        #[trigger] v[i],
        #[trigger] v[j],
    ) by {
        assert(v[i] == entry_view(t[i]));
        assert(v[j] == entry_view(t[j]));
    }
}

proof fn lemma_sorted_unique(v1: Seq<(Seq<char>, nat)>, v2: Seq<(Seq<char>, nat)>)
    requires
        forall|i: int, j: int| 0 <= i < j < v1.len() ==> tally_before(#[trigger] v1[i], #[trigger] v1[j]),
        forall|i: int, j: int| 0 <= i < j < v2.len() ==> tally_before(#[trigger] v2[i], #[trigger] v2[j]),
        forall|x: (Seq<char>, nat)| v1.contains(x) <==> v2.contains(x),
    ensures
        v1 == v2,
    decreases v1.len(),
{
    if v1.len() == 0 {
        if v2.len() > 0 {
            assert(v2.contains(v2[0]));
        }
        assert(v1 =~= v2);
    } else {
        assert(v1.contains(v1[0]));
        assert(v2.len() > 0);
        let a = v1[0];
        let b = v2[0];
        assert(v2.contains(b));
        let jb = choose|j: int| 0 <= j < v1.len() && v1[j] == b;
        let ja = choose|j: int| 0 <= j < v2.len() && v2[j] == a;
        if a != b {
            assert(jb > 0);
            assert(ja > 0);
            assert(tally_before(v1[0], v1[jb]));
            assert(tally_before(v2[0], v2[ja]));
            lemma_tally_asymmetric(a, b);
        }
        let r1 = v1.drop_first();
        let r2 = v2.drop_first();
        assert forall|x: (Seq<char>, nat)| r1.contains(x) <==> r2.contains(x) by {
            if r1.contains(x) {
                let k = choose|k: int| 0 <= k < r1.len() && r1[k] == x;
                assert(v1[k + 1] == x);
                assert(tally_before(v1[0], v1[k + 1]));
                if x == a {
                    lemma_lex_irreflexive(a.0);
                }
                assert(v1.contains(x));
                let m = choose|m: int| 0 <= m < v2.len() && v2[m] == x;
                assert(m != 0);
                assert(r2[m - 1] == x);
            }
            if r2.contains(x) {
                let k = choose|k: int| 0 <= k < r2.len() && r2[k] == x;
                assert(v2[k + 1] == x);
                assert(tally_before(v2[0], v2[k + 1]));
                if x == b {
                    lemma_lex_irreflexive(b.0);
                }
                assert(v2.contains(x));
                let m = choose|m: int| 0 <= m < v1.len() && v1[m] == x;
                assert(m != 0);
                assert(r1[m - 1] == x);
            }
        }
        assert forall|i: int, j: int| 0 <= i < j < r1.len() implies tally_before(#[trigger] r1[i], #[trigger] r1[j]) by {
            assert(r1[i] == v1[i + 1]);
            assert(r1[j] == v1[j + 1]);
        }
        assert forall|i: int, j: int| 0 <= i < j < r2.len() implies tally_before(#[trigger] r2[i], #[trigger] r2[j]) by {
            assert(r2[i] == v2[i + 1]);
            assert(r2[j] == v2[j + 1]);
        }
        lemma_sorted_unique(r1, r2);
        assert(v1 =~= seq![a] + r1);
        assert(v2 =~= seq![b] + r2);
    }
}

/// The tally of a sequence of keys is unique: any two sequences that count the
/// same keys in tally order are equal.
pub proof fn tally_is_unique(v1: Seq<(Seq<char>, nat)>, v2: Seq<(Seq<char>, nat)>, keys: Seq<Seq<char>>)
    requires
        is_tally_view(v1, keys),
        is_tally_view(v2, keys),
    ensures
        v1 == v2,
{
    assert forall|x: (Seq<char>, nat)| v1.contains(x) <==> v2.contains(x) by {
        if v1.contains(x) {
            let i = choose|i: int| 0 <= i < v1.len() && v1[i] == x;
            assert(v1[i].1 == occurrences(keys, v1[i].0));
            let j = choose|j: int| 0 <= j < v2.len() && #[trigger] v2[j].0 == x.0;
            assert(v2[j].1 == occurrences(keys, v2[j].0));
            assert(v2[j] == x);
        }
        if v2.contains(x) {
            let i = choose|i: int| 0 <= i < v2.len() && v2[i] == x;
            assert(v2[i].1 == occurrences(keys, v2[i].0));
            let j = choose|j: int| 0 <= j < v1.len() && #[trigger] v1[j].0 == x.0;
            assert(v1[j].1 == occurrences(keys, v1[j].0));
            assert(v1[j] == x);
        }
    }
    lemma_sorted_unique(v1, v2);
}

/// What `count_by_rule` returns is the tally of the rule keys.
pub proof fn lemma_count_is_tally(t: Seq<(String, usize)>, keys: Seq<Seq<char>>)
    requires
        is_tally_of(t, keys),
    ensures
        tally_view(t) == tally(keys),
{
    lemma_tally_of_view(t, keys);
    tally_is_unique(tally_view(t), tally(keys), keys);
}

/// The sum of the counts of a tally.
pub open spec fn count_total(v: Seq<(Seq<char>, nat)>) -> nat
    decreases v.len(),
{
    if v.len() == 0 {
        0
    } else {
        count_total(v.drop_last()) + v.last().1
    }
}

/// The number of occurrences in `keys` of the keys of the entries of `v`, summed.
spec fn occurrence_sum(v: Seq<(Seq<char>, nat)>, keys: Seq<Seq<char>>) -> nat
    decreases v.len(),
{
    if v.len() == 0 {
        0
    } else {
        occurrence_sum(v.drop_last(), keys) + occurrences(keys, v.last().0)
    }
}

/// The number of entries of `v` whose key is `x`.
spec fn hits(v: Seq<(Seq<char>, nat)>, x: Seq<char>) -> nat
    decreases v.len(),
{
    if v.len() == 0 {
        0
    } else {
        hits(v.drop_last(), x) + if v.last().0 == x {
            1nat
        } else {
            0nat
        }
    }
}

spec fn distinct_keys(v: Seq<(Seq<char>, nat)>) -> bool {
    forall|i: int, j: int| 0 <= i < j < v.len() ==> #[trigger] v[i].0 != #[trigger] v[j].0
}

proof fn lemma_hits(v: Seq<(Seq<char>, nat)>, x: Seq<char>)
    requires
        distinct_keys(v),
    ensures
        (exists|i: int| 0 <= i < v.len() && #[trigger] v[i].0 == x) ==> hits(v, x) == 1,
        !(exists|i: int| 0 <= i < v.len() && #[trigger] v[i].0 == x) ==> hits(v, x) == 0,
    decreases v.len(),
{
    if v.len() > 0 {
        let d = v.drop_last();
        assert forall|i: int, j: int| 0 <= i < j < d.len() implies #[trigger] d[i].0 != #[trigger] d[j].0 by {
            assert(d[i] == v[i] && d[j] == v[j]);
        }
        lemma_hits(d, x);
        if v.last().0 == x {
            assert forall|i: int| 0 <= i < d.len() implies #[trigger] d[i].0 != x by {
                assert(d[i] == v[i]);
                assert(v[i].0 != v[v.len() - 1].0);
            }
        } else {
            if exists|i: int| 0 <= i < v.len() && #[trigger] v[i].0 == x {
                let i = choose|i: int| 0 <= i < v.len() && #[trigger] v[i].0 == x;
                assert(d[i] == v[i]);
            }
            if exists|i: int| 0 <= i < d.len() && #[trigger] d[i].0 == x {
                let i = choose|i: int| 0 <= i < d.len() && #[trigger] d[i].0 == x;
                assert(d[i] == v[i]);
            }
        }
    }
}

proof fn lemma_occurrence_sum_step(v: Seq<(Seq<char>, nat)>, keys: Seq<Seq<char>>)
    requires
        keys.len() > 0,
    ensures
        occurrence_sum(v, keys) == occurrence_sum(v, keys.drop_last()) + hits(v, keys.last()),
    decreases v.len(),
{
    if v.len() > 0 {
        lemma_occurrence_sum_step(v.drop_last(), keys);
    }
}

proof fn lemma_occurrence_sum_empty(v: Seq<(Seq<char>, nat)>, keys: Seq<Seq<char>>)
    requires
        keys.len() == 0,
    ensures
        occurrence_sum(v, keys) == 0,
    decreases v.len(),
{
    if v.len() > 0 {
        lemma_occurrence_sum_empty(v.drop_last(), keys);
    }
}

proof fn lemma_occurrence_sum_covers(v: Seq<(Seq<char>, nat)>, keys: Seq<Seq<char>>)
    requires
        distinct_keys(v),
        forall|k: Seq<char>| keys.contains(k) ==> exists|i: int| 0 <= i < v.len() && #[trigger] v[i].0 == k,
    ensures
        occurrence_sum(v, keys) == keys.len(),
    decreases keys.len(),
{
    if keys.len() == 0 {
        lemma_occurrence_sum_empty(v, keys);
    } else {
        let d = keys.drop_last();
        assert forall|k: Seq<char>| d.contains(k) implies exists|i: int|
            0 <= i < v.len() && #[trigger] v[i].0 == k by {
            let m = choose|m: int| 0 <= m < d.len() && d[m] == k;
            assert(keys[m] == k);
            assert(keys.contains(k));
        }
        lemma_occurrence_sum_covers(v, d);
        lemma_occurrence_sum_step(v, keys);
        assert(keys.contains(keys.last())) by {
            assert(keys[keys.len() - 1] == keys.last());
        }
        lemma_hits(v, keys.last());
    }
}

proof fn lemma_total_is_occurrence_sum(v: Seq<(Seq<char>, nat)>, keys: Seq<Seq<char>>)
    requires
        forall|i: int| 0 <= i < v.len() ==> #[trigger] v[i].1 == occurrences(keys, v[i].0),
    ensures
        count_total(v) == occurrence_sum(v, keys),
    decreases v.len(),
{
    if v.len() > 0 {
        let d = v.drop_last();
        assert forall|i: int| 0 <= i < d.len() implies #[trigger] d[i].1 == occurrences(keys, d[i].0) by {
            assert(d[i] == v[i]);
        }
        lemma_total_is_occurrence_sum(d, keys);
        assert(v[v.len() - 1] == v.last());
    }
}

/// A tally counts every key exactly once: its counts add up to the number of
/// keys counted (in a rule count table, to the number of diagnostics).
pub proof fn tally_counts_every_key(v: Seq<(Seq<char>, nat)>, keys: Seq<Seq<char>>)
    requires
        is_tally_view(v, keys),
    ensures
        count_total(v) == keys.len(),
{
    assert forall|i: int, j: int| 0 <= i < j < v.len() implies #[trigger] v[i].0 != #[trigger] v[j].0 by {
        assert(tally_before(v[i], v[j]));
        if v[i].0 == v[j].0 {
            assert(v[i].1 == occurrences(keys, v[i].0));
            assert(v[j].1 == occurrences(keys, v[j].0));
            lemma_lex_irreflexive(v[i].0);
        }
    }
    lemma_total_is_occurrence_sum(v, keys);
    lemma_occurrence_sum_covers(v, keys);
}

} // verus!
