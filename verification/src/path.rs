//! Unix path text seen as components, with the operations of `std::path::Path`
//! that the library relies on: joining, parents, ancestors and prefix tests.
use vstd::prelude::*;
use crate::text::{chars_of, push_char};

verus! {

/// The `/`-separated segments of `p`, empty ones included.
pub open spec fn segments(p: Seq<char>) -> Seq<Seq<char>>
    decreases p.len(),
{
    if p.len() == 0 {
        seq![seq![]]
    } else {
        let s = segments(p.drop_last());
        if p.last() == '/' {
            s.push(seq![])
        } else {
            s.update(s.len() - 1, s.last().push(p.last()))
        }
    }
}

/// Whether the segment at position `index` is a component: empty segments and
/// `.` segments are dropped, except a `.` that opens a relative path.
pub open spec fn is_component(seg: Seq<char>, index: int) -> bool {
    seg.len() > 0 && !(seg == seq!['.'] && index > 0)
}

/// The segments of `segs` that are components, in order.
pub open spec fn kept_components(segs: Seq<Seq<char>>) -> Seq<Seq<char>>
    decreases segs.len(),
{
    if segs.len() == 0 {
        seq![]
    } else {
        let rest = kept_components(segs.drop_last());
        if is_component(segs.last(), segs.len() - 1) {
            rest.push(segs.last())
        } else {
            rest
        }
    }
}

/// The components of `p` after its root, as `Path::components` yields them.
pub open spec fn components(p: Seq<char>) -> Seq<Seq<char>> {
    kept_components(segments(p))
}

/// `p` starts at the root.
pub open spec fn is_absolute(p: Seq<char>) -> bool {
    p.len() > 0 && p[0] == '/'
}

/// Component-wise prefix test, as `Path::starts_with`.
pub open spec fn path_starts_with(p: Seq<char>, base: Seq<char>) -> bool {
    let pc = components(p);
    let bc = components(base);
    &&& is_absolute(p) == is_absolute(base)
    &&& bc.len() <= pc.len()
    &&& pc.take(bc.len() as int) == bc
}

/// The components joined with `/`.
pub open spec fn join_components(cs: Seq<Seq<char>>) -> Seq<char>
    decreases cs.len(),
{
    if cs.len() == 0 {
        seq![]
    } else if cs.len() == 1 {
        cs[0]
    } else {
        join_components(cs.drop_last()) + seq!['/'] + cs.last()
    }
}

/// The path text of the given components, rooted or not.
pub open spec fn render(absolute: bool, cs: Seq<Seq<char>>) -> Seq<char> {
    if absolute {
        seq!['/'] + join_components(cs)
    } else {
        join_components(cs)
    }
}

/// `base.join(rel)` for a relative `rel`: a separator is added unless `base` is
/// empty or already ends with one.
pub open spec fn join_relative(base: Seq<char>, rel: Seq<char>) -> Seq<char> {
    if base.len() == 0 || base.last() == '/' {
        base + rel
    } else {
        base + seq!['/'] + rel
    }
}

pub proof fn lemma_segments_nonempty(p: Seq<char>)
    ensures
        segments(p).len() >= 1,
    decreases p.len(),
{
    if p.len() > 0 {
        lemma_segments_nonempty(p.drop_last());
    }
}

pub proof fn lemma_kept_len(segs: Seq<Seq<char>>)
    ensures
        kept_components(segs).len() <= segs.len(),
    decreases segs.len(),
{
    if segs.len() > 0 {
        lemma_kept_len(segs.drop_last());
    }
}

/// Splits `p` into its `/`-separated segments.
pub fn segments_exec(p: &Vec<char>) -> (r: Vec<Vec<char>>)
    ensures
        r.deep_view() == segments(p@),
{
    let mut done: Vec<Vec<char>> = Vec::new();
    let mut cur: Vec<char> = Vec::new();
    let mut i: usize = 0;
    while i < p.len()
        invariant
            0 <= i <= p@.len(),
            done.deep_view().push(cur@) == segments(p@.take(i as int)),
        decreases p@.len() - i,
    {
        proof {
            lemma_segments_nonempty(p@.take(i as int));
        }
        assert(p@.take(i + 1).drop_last() == p@.take(i as int));
        let c = p[i];
        let ghost old_done = done.deep_view();
        if c == '/' {
            let finished = cur;
            let ghost fin = finished@;
            assert(finished.deep_view() =~= finished@);
            done.push(finished);
            cur = Vec::new();
            assert(done.deep_view() =~= old_done.push(fin));
            assert(done.deep_view().push(cur@) =~= segments(p@.take(i as int)).push(seq![]));
        } else {
            cur.push(c);
            assert(done.deep_view() =~= old_done);
            assert(done.deep_view().push(cur@) =~= segments(p@.take(i as int)).update(
                segments(p@.take(i as int)).len() - 1,
                segments(p@.take(i as int)).last().push(c),
            ));
        }
        i = i + 1;
    }
    assert(p@.take(i as int) == p@);
    let ghost old_done = done.deep_view();
    let ghost last = cur@;
    assert(cur.deep_view() =~= cur@);
    done.push(cur);
    assert(done.deep_view() =~= old_done.push(last));
    done
}

fn is_dot(seg: &Vec<char>) -> (b: bool)
    ensures
        b == (seg@ == seq!['.']),
{
    if seg.len() == 1 {
        if seg[0] == '.' {
            assert(seg@ =~= seq!['.']);
            true
        } else {
            false
        }
    } else {
        false
    }
}

/// The components of `p`, as `Path::components` yields them after the root.
pub fn components_exec(p: &Vec<char>) -> (r: Vec<Vec<char>>)
    ensures
        r.deep_view() == components(p@),
{
    let segs = segments_exec(p);
    let mut out: Vec<Vec<char>> = Vec::new();
    let mut i: usize = 0;
    while i < segs.len()
        invariant
            0 <= i <= segs@.len(),
            segs.deep_view() == segments(p@),
            out.deep_view() == kept_components(segs.deep_view().take(i as int)),
        decreases segs@.len() - i,
    {
        let ghost sv = segs.deep_view();
        assert(sv.take(i + 1).drop_last() == sv.take(i as int));
        assert(sv[i as int] == segs@[i as int]@);
        let keep = segs[i].len() > 0 && !(is_dot(&segs[i]) && i > 0);
        if keep {
            let seg = segs[i].clone();
            out.push(seg);
        }
        i = i + 1;
    }
    assert(segs.deep_view().take(i as int) == segs.deep_view());
    out
}

/// The path text of the given components, rooted or not.
pub fn render_exec(absolute: bool, cs: &Vec<Vec<char>>) -> (r: String)
    ensures
        r@ == render(absolute, cs.deep_view()),
{
    let mut out = String::new();
    if absolute {
        push_char(&mut out, '/');
    }
    let ghost start = out@;
    let mut i: usize = 0;
    while i < cs.len()
        invariant
            0 <= i <= cs@.len(),
            out@ == start + join_components(cs.deep_view().take(i as int)),
            start == (if absolute { seq!['/'] } else { seq![] }),
        decreases cs@.len() - i,
    {
        let ghost dv = cs.deep_view();
        assert(dv.take(i + 1).drop_last() == dv.take(i as int));
        if i > 0 {
            push_char(&mut out, '/');
        }
        let seg = &cs[i];
        let mut j: usize = 0;
        let ghost before = out@;
        while j < seg.len()
            invariant
                0 <= j <= seg@.len(),
                out@ == before + seg@.take(j as int),
            decreases seg@.len() - j,
        {
            push_char(&mut out, seg[j]);
            assert(seg@.take(j + 1) == seg@.take(j as int).push(seg@[j as int]));
            j = j + 1;
        }
        assert(seg@.take(j as int) == seg@);
        assert(dv[i as int] == seg@);
        i = i + 1;
    }
    assert(cs.deep_view().take(i as int) == cs.deep_view());
    out
}

/// Component-wise prefix test, as `Path::starts_with`.
pub fn starts_with_exec(p: &str, base: &str) -> (b: bool)
    ensures
        b == path_starts_with(p@, base@),
{
    let pv = chars_of(p);
    let bv = chars_of(base);
    let p_abs = pv.len() > 0 && pv[0] == '/';
    let b_abs = bv.len() > 0 && bv[0] == '/';
    if p_abs != b_abs {
        return false;
    }
    let pc = components_exec(&pv);
    let bc = components_exec(&bv);
    if bc.len() > pc.len() {
        return false;
    }
    let mut i: usize = 0;
    while i < bc.len()
        invariant
            0 <= i <= bc@.len(),
            bc@.len() <= pc@.len(),
            pc.deep_view() == components(p@),
            bc.deep_view() == components(base@),
            forall|k: int| 0 <= k < i ==> pc.deep_view()[k] == bc.deep_view()[k],
        decreases bc@.len() - i,
    {
        assert(pc.deep_view()[i as int] == pc@[i as int]@);
        assert(bc.deep_view()[i as int] == bc@[i as int]@);
        if !crate::text::vec_chars_eq(&pc[i], &bc[i]) {
            assert(pc.deep_view().take(bc@.len() as int)[i as int] != bc.deep_view()[i as int]);
            return false;
        }
        i = i + 1;
    }
    assert(pc.deep_view().take(bc@.len() as int) =~= bc.deep_view());
    true
}

/// `base.join(rel)` for a relative, non-empty `rel`.
pub fn join_relative_exec(base: &str, rel: &str) -> (r: String)
    ensures
        r@ == join_relative(base@, rel@),
{
    let bv = chars_of(base);
    let mut out = String::from_str(base);
    if bv.len() > 0 && bv[bv.len() - 1] != '/' {
        push_char(&mut out, '/');
    }
    out.append(rel);
    out
}

} // verus!
