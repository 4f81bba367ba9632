use vstd::prelude::*;

verus! {

/// The `/`-separated segments of a topic path, as `str::split` gives them.
pub open spec fn segments(s: Seq<char>) -> Seq<Seq<char>>
    decreases s.len(),
{
    if s.len() == 0 {
        seq![Seq::<char>::empty()]
    } else {
        let prev = segments(s.drop_last());
        if s.last() == '/' {
            prev.push(Seq::<char>::empty())
        } else {
            prev.update(prev.len() - 1, prev.last().push(s.last()))
        }
    }
}

/// Whether subscription segments `s` cover publication segments `p`: `+`
/// stands for any one segment, `#` for whatever remains.
pub open spec fn segments_match(s: Seq<Seq<char>>, p: Seq<Seq<char>>) -> bool
    decreases s.len(),
{
    if s.len() == 0 {
        p.len() == 0
    } else if s[0] == seq!['#'] {
        true
    } else if p.len() == 0 {
        false
    } else if s[0] == seq!['+'] || s[0] == p[0] {
        segments_match(s.drop_first(), p.drop_first())
    } else {
        false
    }
}

/// Whether subscription `subscr` covers the topic `publ`; empty paths match nothing.
pub open spec fn topic_matches(subscr: Seq<char>, publ: Seq<char>) -> bool {
    subscr.len() > 0 && publ.len() > 0 && segments_match(segments(subscr), segments(publ))
}

/// Splits a path into its segments.
fn split_segments(s: &str) -> (r: Vec<Vec<char>>)
    ensures
        r@.len() == segments(s@).len(),
        forall|i: int| 0 <= i < r@.len() ==> #[trigger] r@[i]@ == segments(s@)[i],
{
    let n = s.unicode_len();
    let mut out: Vec<Vec<char>> = Vec::new();
    out.push(Vec::new());
    let mut i: usize = 0;
    assert(s@.take(0) =~= Seq::<char>::empty());
    while i < n
        invariant
            n == s@.len(),
            i <= n,
            out@.len() == segments(s@.take(i as int)).len(),
            out@.len() >= 1,
            forall|k: int| 0 <= k < out@.len() ==> #[trigger] out@[k]@ == segments(s@.take(i as int))[k],
        decreases n - i,
    {
        let c = s.get_char(i);
        let ghost prev = segments(s@.take(i as int));
        assert(s@.take(i + 1).drop_last() =~= s@.take(i as int));
        if c == '/' {
            out.push(Vec::new());
        } else {
            let last = out.len() - 1;
            let mut seg = out.remove(last);
            seg.push(c);
            out.push(seg);
        }
        i = i + 1;
        proof {
            let cur = segments(s@.take(i as int));
            assert forall|k: int| 0 <= k < out@.len() implies #[trigger] out@[k]@ == cur[k] by {
                if c != '/' && k == out@.len() - 1 {
                    assert(out@[k]@ =~= cur[k]);
                }
            }
        }
    }
    assert(s@.take(n as int) =~= s@);
    out
}

/// Whether a subscription path covers a published topic path. Segments are
/// separated by `/`; `+` matches any one segment and `#` the rest of the
/// topic. An empty path matches nothing.
pub fn matches(subscr: &str, publ: &str) -> (r: bool)
    ensures
        r == topic_matches(subscr@, publ@),
{
    let ns = subscr.unicode_len();
    let np = publ.unicode_len();
    if ns == 0 || np == 0 {
        return false;
    }
    assert(subscr@.len() > 0 && publ@.len() > 0);
    let s = split_segments(subscr);
    let p = split_segments(publ);
    let ghost ss = segments(subscr@);
    let ghost ps = segments(publ@);
    assert(s@.len() == ss.len());
    assert(ss.skip(0) =~= ss);
    assert(ps.skip(0) =~= ps);
    let mut i: usize = 0;
    while i < s.len()
        invariant
            subscr@.len() > 0 && publ@.len() > 0,
            ss == segments(subscr@),
            ps == segments(publ@),
            i <= s@.len(),
            s@.len() == ss.len(),
            p@.len() == ps.len(),
            forall|k: int| 0 <= k < s@.len() ==> #[trigger] s@[k]@ == ss[k],
            forall|k: int| 0 <= k < p@.len() ==> #[trigger] p@[k]@ == ps[k],
            i <= p@.len(),
            segments_match(ss, ps) == segments_match(ss.skip(i as int), ps.skip(i as int)),
        decreases s@.len() - i,
    {
        let seg = &s[i];
        assert(ss.skip(i as int)[0] == ss[i as int]);
        assert(ss.skip(i as int).drop_first() =~= ss.skip(i + 1));
        if seg.len() == 1 && seg[0] == '#' {
            assert(seg@ =~= seq!['#']);
            assert(ss.skip(i as int)[0] == seq!['#']);
            return true;
        }
        assert(ss[i as int] != seq!['#']);
        if i >= p.len() {
            assert(ps.skip(i as int).len() == 0);
            return false;
        }
        assert(ps.skip(i as int).drop_first() =~= ps.skip(i + 1));
        assert(ps.skip(i as int)[0] == ps[i as int]);
        let pseg = &p[i];
        let plus = seg.len() == 1 && seg[0] == '+';
        if plus {
            assert(seg@ =~= seq!['+']);
        } else {
            assert(ss[i as int] != seq!['+']);
            let mut same = seg.len() == pseg.len();
            let mut j: usize = 0;
            while same && j < seg.len()
                invariant
                    j <= seg@.len(),
                    same ==> seg@.len() == pseg@.len(),
                    same ==> seg@.take(j as int) == pseg@.take(j as int),
                    !same ==> seg@ != pseg@,
                decreases seg@.len() - j,
            {
                if seg[j] != pseg[j] {
                    same = false;
                } else {
                    assert(seg@.take(j + 1) =~= seg@.take(j as int).push(seg@[j as int]));
                    assert(pseg@.take(j + 1) =~= pseg@.take(j as int).push(pseg@[j as int]));
                }
                j = j + 1;
            }
            if !same {
                return false;
            }
            assert(seg@ =~= seg@.take(seg@.len() as int));
            assert(pseg@ =~= pseg@.take(pseg@.len() as int));
        }
        i = i + 1;
    }
    assert(ss.skip(i as int) =~= Seq::<Seq<char>>::empty());
    i == p.len()
}

} // verus!
