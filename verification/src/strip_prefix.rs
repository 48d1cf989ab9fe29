//! Stripping a mount prefix from a request path before sub-dispatch.
//!
//! The prefix is compared segment by segment; a `:param` segment of the
//! prefix matches any path segment. When the prefix matches, the path that
//! remains after it is returned, always with a leading `/`.

use vstd::prelude::*;
use crate::text::{chars_of, chars_eq, string_of};

verus! {

/// The parts of a character sequence between `/` separators. The empty
/// sequence has one empty part; `n` separators give `n + 1` parts.
pub open spec fn spec_split(s: Seq<char>) -> Seq<Seq<char>>
    decreases s.len(),
{
    match s.index_of_first('/') {
        Some(i) => if 0 <= i < s.len() {
            seq![s.subrange(0, i)] + spec_split(s.subrange(i + 1, s.len() as int))
        } else {
            seq![s]
        },
        None => seq![s],
    }
}

/// The views of a vector of character vectors.
pub open spec fn segs_view(v: Seq<Vec<char>>) -> Seq<Seq<char>> {
    Seq::new(v.len(), |i: int| v[i]@)
}

/// The parts joined back with `/` separators.
pub open spec fn spec_join_slash(l: Seq<Seq<char>>) -> Seq<char>
    decreases l.len(),
{
    if l.len() == 0 {
        Seq::empty()
    } else if l.len() == 1 {
        l[0]
    } else {
        spec_join_slash(l.drop_last()) + seq!['/'] + l.last()
    }
}

/// The segments of a path: the parts after the leading one. For a path
/// with a leading `/` the leading part is empty, so these are the parts
/// between the slashes.
pub open spec fn spec_segments(s: Seq<char>) -> Seq<Seq<char>> {
    spec_split(s).drop_first()
}

/// How many path segments a prefix consumes, walking both segment lists
/// in step: a `:param` prefix segment consumes any segment, a literal one
/// consumes only its equal; an empty prefix segment (a trailing `/`) or an
/// exhausted prefix stops the walk; a prefix segment with nothing left to
/// consume means no match.
pub open spec fn spec_strip_segs(ps: Seq<Seq<char>>, rs: Seq<Seq<char>>) -> Option<int>
    decreases rs.len(),
{
    if rs.len() == 0 {
        Some(0)
    } else if ps.len() == 0 {
        None
    } else if (rs[0].len() > 0 && rs[0][0] == ':') || ps[0] == rs[0] {
        match spec_strip_segs(ps.drop_first(), rs.drop_first()) {
            Some(n) => Some(n + 1),
            None => None,
        }
    } else if rs[0].len() == 0 {
        Some(0)
    } else {
        None
    }
}

/// The path left once a matching prefix is stripped: the unconsumed
/// segments, rejoined behind a leading `/`. `None` when the prefix does
/// not match.
pub open spec fn spec_strip_prefix(path: Seq<char>, prefix: Seq<char>) -> Option<Seq<char>> {
    match spec_strip_segs(spec_segments(path), spec_segments(prefix)) {
        Some(n) => Some(seq!['/'] + spec_join_slash(spec_segments(path).skip(n))),
        None => None,
    }
}

/// Splits a character vector at every `/`.
pub fn split_slash(v: &Vec<char>) -> (r: Vec<Vec<char>>)
    ensures
        segs_view(r@) == spec_split(v@),
{
        let mut parts: Vec<Vec<char>> = Vec::new();
    let mut cur: Vec<char> = Vec::new();
    let mut i: usize = 0;
    proof {
        lemma_split_nonempty(v@);
        assert(v@.skip(0) =~= v@);
        assert(Seq::<char>::empty() + spec_split(v@)[0] =~= spec_split(v@)[0]);
        assert(cons_first(Seq::<char>::empty(), spec_split(v@)) =~= spec_split(v@));
        assert(segs_view(parts@) =~= Seq::<Seq<char>>::empty());
        assert(spec_split(v@) =~= segs_view(parts@) + cons_first(cur@, spec_split(v@)));
    }
    while i < v.len()
        invariant
            0 <= i <= v.len(),
            spec_split(v@) == segs_view(parts@) + cons_first(cur@, spec_split(v@.skip(i as int))),
        decreases v.len() - i,
    {
        let ghost rem = v@.skip(i as int);
        proof {
            rem.index_of_first_ensures('/');
            assert(rem.len() > 0);
        }
        if v[i] == '/' {
            proof {
                assert(rem[0] == '/');
                assert(rem.index_of_first('/') == Some(0int));
                assert(rem.subrange(0, 0) =~= Seq::<char>::empty());
                assert(rem.subrange(1, rem.len() as int) =~= v@.skip(i as int + 1));
                assert(spec_split(rem) == seq![Seq::<char>::empty()] + spec_split(
                    v@.skip(i as int + 1),
                ));
            }
            let ghost parts_before = segs_view(parts@);
            let ghost cur_view = cur@;
            parts.push(cur);
            cur = Vec::new();
            proof {
                assert(segs_view(parts@) =~= parts_before.push(cur_view));
                lemma_cons_first_slash(cur_view, v@.skip(i as int + 1));
                assert(parts_before + cons_first(cur_view, spec_split(rem)) =~= segs_view(parts@)
                    + cons_first(cur@, spec_split(v@.skip(i as int + 1))));
            }
        } else {
            proof {
                assert(rem[0] != '/');
                lemma_split_head(rem);
                assert(rem.drop_first() =~= v@.skip(i as int + 1));
            }
            let ghost cur_view = cur@;
            cur.push(v[i]);
            proof {
                lemma_cons_first_extend(cur_view, rem);
                assert(cons_first(cur_view, spec_split(rem)) =~= cons_first(
                    cur@,
                    spec_split(v@.skip(i as int + 1)),
                ));
            }
        }
        i = i + 1;
    }
    proof {
        assert(v@.skip(v@.len() as int) =~= Seq::<char>::empty());
        Seq::<char>::empty().index_of_first_ensures('/');
        assert(spec_split(Seq::<char>::empty()) == seq![Seq::<char>::empty()]);
    }
    parts.push(cur);
    proof {
        assert(cons_first(cur@, seq![Seq::<char>::empty()]) =~= seq![cur@]);
        assert(segs_view(parts@) =~= spec_split(v@));
    }
    parts
}

/// A part list whose first part is extended at the front.
pub open spec fn cons_first(prefix: Seq<char>, l: Seq<Seq<char>>) -> Seq<Seq<char>>
    recommends
        l.len() >= 1,
{
    seq![prefix + l[0]] + l.drop_first()
}

proof fn lemma_split_nonempty(s: Seq<char>)
    ensures
        spec_split(s).len() >= 1,
{
}

proof fn lemma_cons_first_slash(prefix: Seq<char>, rest: Seq<char>)
    ensures
        cons_first(prefix, seq![Seq::<char>::empty()] + spec_split(rest)) == seq![prefix]
            + cons_first(Seq::<char>::empty(), spec_split(rest)),
{
    lemma_split_nonempty(rest);
    let l = seq![Seq::<char>::empty()] + spec_split(rest);
    assert(l[0] == Seq::<char>::empty());
    assert(prefix + l[0] =~= prefix);
    assert(l.drop_first() =~= spec_split(rest));
    assert(Seq::<char>::empty() + spec_split(rest)[0] =~= spec_split(rest)[0]);
    assert(cons_first(prefix, l) =~= seq![prefix] + cons_first(
        Seq::<char>::empty(),
        spec_split(rest),
    ));
}

/// Unfolds one non-separator head character off a split.
proof fn lemma_split_head(s: Seq<char>)
    requires
        s.len() > 0,
        s[0] != '/',
    ensures
        spec_split(s).len() >= 1,
        spec_split(s)[0] == seq![s[0]] + spec_split(s.drop_first())[0],
        spec_split(s).drop_first() == spec_split(s.drop_first()).drop_first(),
{
    s.index_of_first_ensures('/');
    s.drop_first().index_of_first_ensures('/');
    lemma_split_nonempty(s.drop_first());
    match s.index_of_first('/') {
        Some(i) => {
            assert(0 <= i < s.len());
            assert(i != 0);
            assert(forall|j: int| 0 <= j < i - 1 ==> s.drop_first()[j] != '/');
            assert(s.drop_first()[i - 1] == '/');
            assert(s.drop_first().index_of_first('/') == Some(i - 1)) by {
                match s.drop_first().index_of_first('/') {
                    Some(k) => {
                        if k < i - 1 {
                            assert(s[k + 1] == '/');
                        }
                        if k > i - 1 {
                            assert(s.drop_first()[i - 1] != '/');
                        }
                    }
                    None => {
                        assert(!s.drop_first().contains('/'));
                        assert(s.drop_first()[i - 1] == '/');
                    }
                }
            }
            assert(spec_split(s) == seq![s.subrange(0, i)] + spec_split(
                s.subrange(i + 1, s.len() as int),
            ));
            let d = s.drop_first();
            assert(spec_split(d) == seq![d.subrange(0, i - 1)] + spec_split(
                d.subrange(i, d.len() as int),
            ));
            assert(s.subrange(0, i) =~= seq![s[0]] + d.subrange(0, i - 1));
            assert(s.subrange(i + 1, s.len() as int) =~= d.subrange(i, d.len() as int));
            assert(spec_split(s)[0] == seq![s[0]] + spec_split(d)[0]);
            assert(spec_split(s).drop_first() =~= spec_split(d).drop_first());
        }
        None => {
            assert(!s.contains('/'));
            assert(forall|j: int| 0 <= j < s.drop_first().len() ==> s.drop_first()[j] == s[j + 1]);
            assert(s.drop_first().index_of_first('/') is None) by {
                match s.drop_first().index_of_first('/') {
                    Some(k) => {
                        assert(s.drop_first()[k] == '/');
                        assert(s[k + 1] == '/');
                        assert(s.contains('/'));
                    }
                    None => {}
                }
            }
            assert(spec_split(s) == seq![s]);
            assert(spec_split(s.drop_first()) == seq![s.drop_first()]);
            assert(s =~= seq![s[0]] + s.drop_first());
            assert(spec_split(s).drop_first() =~= spec_split(s.drop_first()).drop_first());
        }
    }
}

proof fn lemma_cons_first_extend(prefix: Seq<char>, s: Seq<char>)
    requires
        s.len() > 0,
        s[0] != '/',
    ensures
        cons_first(prefix, spec_split(s)) == cons_first(prefix.push(s[0]), spec_split(
            s.drop_first(),
        )),
{
    lemma_split_head(s);
    lemma_split_nonempty(s.drop_first());
    assert(prefix + spec_split(s)[0] =~= prefix.push(s[0]) + spec_split(s.drop_first())[0]);
    assert(cons_first(prefix, spec_split(s)) =~= cons_first(
        prefix.push(s[0]),
        spec_split(s.drop_first()),
    ));
}

/// The segments of a path: what stands between the slashes, after the
/// leading one.
pub fn segments(s: &String) -> (r: Vec<Vec<char>>)
    ensures
        segs_view(r@) == spec_segments(s@),
{
    let chars = chars_of(s.as_str());
    let mut parts = split_slash(&chars);
    proof {
        lemma_split_nonempty(s@);
    }
    let _ = parts.remove(0);
    proof {
        assert(segs_view(parts@) =~= spec_segments(s@));
    }
    parts
}

/// Walks the two segment lists in step and reports how many path
/// segments the prefix consumes, or that it does not match.
fn matched_segments(ps: &Vec<Vec<char>>, rs: &Vec<Vec<char>>) -> (r: Option<usize>)
    ensures
        match r {
            Some(k) => k <= ps@.len() && spec_strip_segs(segs_view(ps@), segs_view(rs@)) == Some(
                k as int,
            ),
            None => spec_strip_segs(segs_view(ps@), segs_view(rs@)) is None,
        },
{
        let ghost psv = segs_view(ps@);
    let ghost rsv = segs_view(rs@);
    let mut k: usize = 0;
    proof {
        assert(psv.skip(0) =~= psv);
        assert(rsv.skip(0) =~= rsv);
    }
    loop
        invariant_except_break
            0 <= k <= rs@.len(),
            k <= ps@.len(),
            psv == segs_view(ps@),
            rsv == segs_view(rs@),
            spec_strip_segs(psv, rsv) == match spec_strip_segs(
                psv.skip(k as int),
                rsv.skip(k as int),
            ) {
                Some(n) => Some(n + k),
                None => None::<int>,
            },
        ensures
            k <= ps@.len(),
            spec_strip_segs(psv, rsv) == Some(k as int),
        decreases rs@.len() - k,
    {
        let ghost pss = psv.skip(k as int);
        let ghost rss = rsv.skip(k as int);
        if k >= rs.len() {
            proof {
                assert(rss =~= Seq::<Seq<char>>::empty());
                assert(spec_strip_segs(pss, rss) == Some(0int));
            }
            break;
        }
        proof {
            assert(rss.len() > 0);
            assert(rss[0] == rsv[k as int]);
            assert(rsv[k as int] == rs@[k as int]@);
        }
        let r0 = &rs[k];
        if k >= ps.len() {
            // the prefix still has a segment, the path does not
            proof {
                assert(pss =~= Seq::<Seq<char>>::empty());
                assert(spec_strip_segs(pss, rss) is None);
            }
            return None;
        }
        let p0 = &ps[k];
        proof {
            assert(pss.len() > 0);
            assert(pss[0] == psv[k as int]);
            assert(psv[k as int] == ps@[k as int]@);
            assert(pss.drop_first() =~= psv.skip(k as int + 1));
            assert(rss.drop_first() =~= rsv.skip(k as int + 1));
        }
        let param = r0.len() > 0 && r0[0] == ':';
        if param || chars_eq(p0, r0) {
            k = k + 1;
        } else if r0.len() == 0 {
            proof {
                assert(spec_strip_segs(pss, rss) == Some(0int));
            }
            break;
        } else {
            proof {
                assert(spec_strip_segs(pss, rss) is None);
            }
            return None;
        }
    }
    Some(k)
}

/// Rejoins the segments from position `k` on, behind a leading `/`.
fn join_segments_from(ps: &Vec<Vec<char>>, k: usize) -> (out: Vec<char>)
    requires
        k <= ps@.len(),
    ensures
        out@ == seq!['/'] + spec_join_slash(segs_view(ps@).skip(k as int)),
{
        let ghost psv = segs_view(ps@);
    let mut out: Vec<char> = Vec::new();
    out.push('/');
    let ghost rest = psv.skip(k as int);
    let mut i: usize = k;
    proof {
        assert(rest.subrange(0, 0) =~= Seq::<Seq<char>>::empty());
        assert(out@ =~= seq!['/'] + spec_join_slash(Seq::<Seq<char>>::empty()));
    }
    while i < ps.len()
        invariant
            k <= i <= ps@.len(),
            psv == segs_view(ps@),
            rest == psv.skip(k as int),
            out@ == seq!['/'] + spec_join_slash(rest.subrange(0, (i - k) as int)),
        decreases ps@.len() - i,
    {
        let ghost done = rest.subrange(0, (i - k) as int);
        proof {
            assert(rest.subrange(0, (i - k) as int + 1).drop_last() =~= done);
            assert(rest.subrange(0, (i - k) as int + 1).last() == psv[i as int]);
            assert(psv[i as int] == ps@[i as int]@);
        }
        if i > k {
            out.push('/');
        }
        let seg = &ps[i];
        let mut j: usize = 0;
        let ghost mid = out@;
        while j < seg.len()
            invariant
                0 <= j <= seg@.len(),
                psv == segs_view(ps@),
                k <= i < ps@.len(),
                seg@ == ps@[i as int]@,
                psv[i as int] == ps@[i as int]@,
                out@ == mid + psv[i as int].subrange(0, j as int),
            decreases seg@.len() - j,
        {
            out.push(seg[j]);
            proof {
                assert(out@ =~= mid + psv[i as int].subrange(0, j as int + 1));
            }
            j = j + 1;
        }
        proof {
            assert(psv[i as int].subrange(0, psv[i as int].len() as int) =~= psv[i as int]);
            if i == k {
                assert(rest.subrange(0, 1) =~= seq![psv[i as int]]);
                assert(out@ =~= seq!['/'] + spec_join_slash(rest.subrange(0, 1)));
            } else {
                assert(out@ =~= seq!['/'] + (spec_join_slash(done) + seq!['/'] + psv[i as int]));
                assert(out@ =~= seq!['/'] + spec_join_slash(
                    rest.subrange(0, (i - k) as int + 1),
                ));
            }
        }
        i = i + 1;
    }
    proof {
        assert(rest.subrange(0, (ps@.len() - k) as int) =~= rest);
    }
    out
}

/// Strips a matching prefix from a path, keeping a leading `/` on what
/// remains.
pub fn strip_prefix(path: &String, prefix: &String) -> (r: Option<String>)
    ensures
        match r {
            Some(s) => spec_strip_prefix(path@, prefix@) == Some(s@),
            None => spec_strip_prefix(path@, prefix@) is None,
        },
{
    let ps = segments(path);
    let rs = segments(prefix);
    match matched_segments(&ps, &rs) {
        Some(k) => {
            let out = join_segments_from(&ps, k);
            Some(string_of(&out))
        }
        None => None,
    }
}

} // verus!
