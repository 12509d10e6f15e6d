//! The path of a wire request as text: segments joined by `/`, variables percent-encoded.

use vstd::prelude::*;
use vstd::string::*;
use crate::codec::{
    decode_query, encode_query, pct_decoded, pct_encoded, percent_decode, percent_encode,
    urldecoded, urlencoded,
};
use crate::schema::same_text;
use crate::template::{
    seg_views, template_spec, split_on, split_text, texts_view, Segment, SegmentView,
};
use crate::wire::{pairs_view, path_matches, WireRequest};

verus! {

/// Pieces of text joined by `/`.
pub open spec fn joined(p: Seq<Seq<char>>) -> Seq<char>
    decreases p.len(),
{
    if p.len() == 0 {
        Seq::empty()
    } else if p.len() == 1 {
        p[0]
    } else {
        joined(p.drop_last()) + seq!['/'] + p.last()
    }
}

/// A path segment as it is written: a variable's value percent-encoded, a literal as it is.
pub open spec fn written_segment(t: SegmentView, v: Seq<char>) -> Seq<char> {
    if t is Var {
        pct_encoded(v)
    } else {
        v
    }
}

pub open spec fn written_segments(ts: Seq<SegmentView>, path: Seq<Seq<char>>) -> Seq<Seq<char>> {
    path.map(|i: int, v: Seq<char>| written_segment(ts[i], v))
}

/// The text holds no `c`.
pub open spec fn plain(t: Seq<char>, c: char) -> bool {
    forall|j: int| 0 <= j < t.len() ==> t[j] != c
}

/// No literal segment of the template holds a `/`.
pub open spec fn literals_plain(ts: Seq<SegmentView>) -> bool {
    forall|k: int| 0 <= k < ts.len() ==> (#[trigger] ts[k] matches SegmentView::Literal(l) ==> plain(l, '/'))
}

proof fn lemma_split_plain(s: Seq<char>, c: char)
    requires
        plain(s, c),
    ensures
        split_on(s, c) == seq![s],
    decreases s.len(),
{
    if s.len() > 0 {
        lemma_split_plain(s.drop_last(), c);
        assert(s.drop_last().push(s.last()) =~= s);
        assert(seq![s.drop_last()].update(0, s) =~= seq![s]);
    } else {
        assert(s =~= Seq::<char>::empty());
    }
}

proof fn lemma_split_append(a: Seq<char>, b: Seq<char>, c: char)
    requires
        plain(b, c),
    ensures
        split_on(a + seq![c] + b, c) == split_on(a, c).push(b),
    decreases b.len(),
{
    let s = a + seq![c] + b;
    if b.len() == 0 {
        assert(s.drop_last() =~= a);
        assert(b =~= Seq::<char>::empty());
    } else {
        let b2 = b.drop_last();
        lemma_split_append(a, b2, c);
        assert(s.drop_last() =~= a + seq![c] + b2);
        assert(b2.push(b.last()) =~= b);
        assert(s.last() == b.last());
        assert(split_on(a, c).push(b2).update(split_on(a, c).len() as int, b) =~= split_on(a, c).push(b));
    }
}

proof fn lemma_split_joined(p: Seq<Seq<char>>)
    requires
        p.len() >= 1,
        forall|k: int| 0 <= k < p.len() ==> plain(#[trigger] p[k], '/'),
    ensures
        split_on(joined(p), '/') == p,
    decreases p.len(),
{
    if p.len() == 1 {
        lemma_split_plain(p[0], '/');
        assert(seq![p[0]] =~= p);
    } else {
        let q = p.drop_last();
        assert forall|k: int| 0 <= k < q.len() implies plain(#[trigger] q[k], '/') by {
            assert(q[k] == p[k]);
        }
        lemma_split_joined(q);
        assert(plain(p[p.len() - 1], '/'));
        lemma_split_append(joined(q), p.last(), '/');
        assert(q.push(p.last()) =~= p);
    }
}

proof fn lemma_split_pieces_plain(s: Seq<char>, c: char)
    ensures
        split_on(s, c).len() >= 1,
        forall|k: int| 0 <= k < split_on(s, c).len() ==> plain(#[trigger] split_on(s, c)[k], c),
    decreases s.len(),
{
    if s.len() > 0 {
        lemma_split_pieces_plain(s.drop_last(), c);
        let p = split_on(s.drop_last(), c);
        assert forall|k: int| 0 <= k < split_on(s, c).len() implies plain(#[trigger] split_on(s, c)[k], c) by {
            if k < p.len() - 1 || (k == p.len() - 1 && s.last() == c) {
                assert(split_on(s, c)[k] == p[k]);
            } else if k == p.len() - 1 {
                assert(plain(p[k], c));
                assert(split_on(s, c)[k] == p[k].push(s.last()));
            } else {
                assert(split_on(s, c)[k] =~= Seq::<char>::empty());
            }
        }
    }
}

/// No literal segment of a template read from text holds a `/`, and a template has at least
/// one segment.
pub proof fn law_template_literals_plain(path: Seq<char>)
    ensures
        literals_plain(template_spec(path)),
        template_spec(path).len() >= 1,
{
    lemma_split_pieces_plain(path, '/');
    let sp = split_on(path, '/');
    assert forall|k: int| 0 <= k < template_spec(path).len() implies (#[trigger] template_spec(path)[k] matches SegmentView::Literal(
        l,
    ) ==> plain(l, '/')) by {
        assert(plain(sp[k], '/'));
        if sp[k].len() > 0 && sp[k][0] == ':' {
        } else {
            assert(template_spec(path)[k] == SegmentView::Literal(sp[k]));
        }
    }
}

/// Writes the decoded path segments of a request as one path text.
pub fn render_path(ts: &Vec<Segment>, path: &Vec<String>) -> (r: String)
    requires
        ts@.len() == path@.len(),
    ensures
        r@ == joined(written_segments(seg_views(ts@), texts_view(path@))),
        ts@.len() >= 1 && literals_plain(seg_views(ts@)) && path_matches(seg_views(ts@), texts_view(path@))
            ==> path_reads(seg_views(ts@), r@) && forall|i: int|
            0 <= i < ts@.len() ==> #[trigger] read_segment(seg_views(ts@)[i], split_on(r@, '/')[i])
                == Some(texts_view(path@)[i]),
{
    let ghost tv = seg_views(ts@);
    let ghost pv = texts_view(path@);
    let ghost good = ts@.len() >= 1 && literals_plain(tv) && path_matches(tv, pv);
    let ghost want = written_segments(seg_views(ts@), texts_view(path@));
    let mut out = String::new();
    let mut i: usize = 0;
    proof {
        reveal_strlit("/");
    }
    while i < path.len()
        invariant
            i <= path@.len(),
            ts@.len() == path@.len(),
            want == written_segments(seg_views(ts@), texts_view(path@)),
            out@ == joined(want.take(i as int)),
            tv == seg_views(ts@),
            pv == texts_view(path@),
            good == (ts@.len() >= 1 && literals_plain(tv) && path_matches(tv, pv)),
            good ==> forall|k: int| 0 <= k < i ==> plain(#[trigger] want[k], '/') && read_segment(tv[k], want[k]) == Some(pv[k]),
        decreases path.len() - i,
    {
        assert(seg_views(ts@)[i as int] == ts@[i as int]@);
        let piece = match &ts[i] {
            Segment::Var(_) => percent_encode(path[i].as_str()),
            Segment::Literal(_) => path[i].clone(),
        };
        assert(piece@ == want[i as int]);
        assert(pv[i as int] == path@[i as int]@);
        proof {
            if good {
                if let SegmentView::Literal(l) = tv[i as int] {
                    assert(pv[i as int] == l);
                    assert(plain(l, '/'));
                }
                assert(plain(want[i as int], '/'));
                assert(read_segment(tv[i as int], want[i as int]) == Some(pv[i as int]));
            }
        }
        assert(want.take(i + 1).drop_last() =~= want.take(i as int));
        assert(want.take(i + 1).last() == want[i as int]);
        if i == 0 {
            assert(want.take(1) =~= seq![want[0]]);
            out.append(piece.as_str());
            assert(out@ =~= joined(want.take(1)));
        } else {
            proof {
                reveal_strlit("/");
            }
            out.append("/");
            out.append(piece.as_str());
            assert(out@ =~= joined(want.take(i + 1)));
        }
        i = i + 1;
    }
    assert(want.take(i as int) =~= want);
    proof {
        if good {
            lemma_split_joined(want);
            assert forall|k: int| 0 <= k < tv.len() implies (#[trigger] read_segment(tv[k], split_on(out@, '/')[k])) is Some by {
                assert(read_segment(tv[k], want[k]) == Some(pv[k]));
            }
            assert forall|k: int| 0 <= k < ts@.len() implies #[trigger] read_segment(tv[k], split_on(out@, '/')[k])
                == Some(pv[k]) by {
                assert(read_segment(tv[k], want[k]) == Some(pv[k]));
            }
        }
    }
    out
}

/// A path piece as it is read: a variable's value percent-decoded; a literal only where the
/// piece is that literal.
pub open spec fn read_segment(t: SegmentView, p: Seq<char>) -> Option<Seq<char>> {
    match t {
        SegmentView::Var(_) => pct_decoded(p),
        SegmentView::Literal(l) => if p == l {
            Some(p)
        } else {
            None
        },
    }
}

/// Whether a path text has one piece for each template segment, each of which reads.
pub open spec fn path_reads(ts: Seq<SegmentView>, raw: Seq<char>) -> bool {
    &&& split_on(raw, '/').len() == ts.len()
    &&& forall|i: int| 0 <= i < ts.len() ==> (#[trigger] read_segment(ts[i], split_on(raw, '/')[i])) is Some
}

/// Reads a path text into its decoded segments, by the positions of the template; `None`
/// where it has another number of pieces, a literal piece differs, or a variable's piece does
/// not decode.
pub fn parse_path(ts: &Vec<Segment>, raw: &str) -> (r: Option<Vec<String>>)
    ensures
        r is Some <==> path_reads(seg_views(ts@), raw@),
        r matches Some(v) ==> v@.len() == ts@.len() && forall|i: int|
            0 <= i < ts@.len() ==> Some((#[trigger] v@[i])@) == read_segment(
                seg_views(ts@)[i],
                split_on(raw@, '/')[i],
            ),
{
    let pieces = split_text(raw);
    let ghost sp = split_on(raw@, '/');
    let ghost tv = seg_views(ts@);
    if pieces.len() != ts.len() {
        return None;
    }
    let mut out: Vec<String> = Vec::new();
    let mut i: usize = 0;
    while i < pieces.len()
        invariant
            i <= pieces@.len(),
            pieces@.len() == ts@.len(),
            texts_view(pieces@) == sp,
            sp == split_on(raw@, '/'),
            tv == seg_views(ts@),
            out@.len() == i,
            forall|m: int| 0 <= m < i ==> Some((#[trigger] out@[m])@) == read_segment(tv[m], sp[m]),
        decreases pieces.len() - i,
    {
        assert(tv[i as int] == ts@[i as int]@);
        assert(pieces@[i as int]@ == sp[i as int]);
        let v = match &ts[i] {
            Segment::Var(_) => match percent_decode(pieces[i].as_str()) {
                Some(t) => t,
                None => {
                    assert(read_segment(tv[i as int], sp[i as int]) is None);
                    return None;
                },
            },
            Segment::Literal(l) => {
                if !same_text(l.as_str(), pieces[i].as_str()) {
                    assert(read_segment(tv[i as int], sp[i as int]) is None);
                    return None;
                }
                pieces[i].clone()
            },
        };
        out.push(v);
        i = i + 1;
    }
    assert forall|m: int| 0 <= m < tv.len() implies (#[trigger] read_segment(tv[m], sp[m])) is Some by {
        assert(Some(out@[m]@) == read_segment(tv[m], sp[m]));
    }
    Some(out)
}

/// The request target: the written path, then `?` and the encoded query where the query is
/// not empty.
pub open spec fn target_of(path: Seq<char>, query: Seq<(Seq<char>, Seq<char>)>) -> Option<Seq<char>> {
    if query.len() == 0 {
        Some(path)
    } else {
        match urlencoded(query) {
            Some(q) => Some(path + seq!['?'] + q),
            None => None,
        }
    }
}

/// Writes the target of a wire request: its path and its query. `None` where the path does
/// not have one segment for each template segment, or the query cannot be encoded.
pub fn request_target(ts: &Vec<Segment>, w: &WireRequest) -> (r: Option<String>)
    ensures
        ts@.len() != w.path@.len() ==> r is None,
        ts@.len() == w.path@.len() ==> match r {
            Some(t) => target_of(joined(written_segments(seg_views(ts@), texts_view(w.path@))), pairs_view(w.query@))
                == Some(t@),
            None => target_of(joined(written_segments(seg_views(ts@), texts_view(w.path@))), pairs_view(w.query@))
                is None,
        },
{
    if ts.len() != w.path.len() {
        return None;
    }
    let mut out = render_path(ts, &w.path);
    if w.query.len() == 0 {
        return Some(out);
    }
    match encode_query(&w.query) {
        Some(q) => {
            proof {
                reveal_strlit("?");
            }
            out.append("?");
            out.append(q.as_str());
            Some(out)
        },
        None => None,
    }
}

/// The position of the first `c` in `s`, or -1.
pub open spec fn first_index(s: Seq<char>, c: char) -> int
    decreases s.len(),
{
    if s.len() == 0 {
        -1
    } else {
        let p = first_index(s.drop_last(), c);
        if p >= 0 {
            p
        } else if s.last() == c {
            s.len() - 1
        } else {
            -1
        }
    }
}

proof fn lemma_first_index_prefix(s: Seq<char>, c: char, k: int)
    requires
        0 <= k <= s.len(),
        first_index(s.take(k), c) >= 0,
    ensures
        first_index(s, c) == first_index(s.take(k), c),
    decreases s.len() - k,
{
    if k < s.len() {
        assert(s.take(k + 1).drop_last() =~= s.take(k));
        lemma_first_index_prefix(s, c, k + 1);
    } else {
        assert(s.take(k) =~= s);
    }
}

/// The position of the first `c` in `t`.
pub fn find_char(t: &str, c: char) -> (r: Option<usize>)
    ensures
        match r {
            Some(k) => first_index(t@, c) == k && k < t@.len(),
            None => first_index(t@, c) == -1,
        },
{
    let n = t.unicode_len();
    let mut k: usize = 0;
    while k < n
        invariant
            n == t@.len(),
            k <= n,
            first_index(t@.take(k as int), c) == -1,
        decreases n - k,
    {
        assert(t@.take(k + 1).drop_last() =~= t@.take(k as int));
        if t.get_char(k) == c {
            proof {
                lemma_first_index_prefix(t@, c, k + 1);
            }
            return Some(k);
        }
        k = k + 1;
    }
    assert(t@.take(n as int) =~= t@);
    None
}

/// The path text and the query text of a target: split at the first `?`.
pub open spec fn target_parts(t: Seq<char>) -> (Seq<char>, Option<Seq<char>>) {
    let k = first_index(t, '?');
    if k >= 0 {
        (t.take(k), Some(t.skip(k + 1)))
    } else {
        (t, None)
    }
}

/// The decoded path segments and query pairs of a target.
pub struct Target {
    pub path: Vec<String>,
    pub query: Vec<(String, String)>,
}

/// Reads a request target: the path by the template, the query (if any) as string pairs.
pub fn parse_target(ts: &Vec<Segment>, t: &str) -> (r: Option<Target>)
    ensures
        r is Some <==> path_reads(seg_views(ts@), target_parts(t@).0) && match target_parts(t@).1 {
            Some(q) => urldecoded(q) is Some,
            None => true,
        },
        r matches Some(tg) ==> {
            &&& tg.path@.len() == ts@.len()
            &&& forall|i: int|
                0 <= i < ts@.len() ==> Some((#[trigger] tg.path@[i])@) == read_segment(
                    seg_views(ts@)[i],
                    split_on(target_parts(t@).0, '/')[i],
                )
            &&& pairs_view(tg.query@) == match target_parts(t@).1 {
                Some(q) => urldecoded(q)->0,
                None => Seq::empty(),
            }
        },
{
    let n = t.unicode_len();
    let at = find_char(t, '?');
    let found = at.is_some();
    let k: usize = match at {
        Some(k) => k,
        None => n,
    };
    let path_text = t.substring_char(0, k);
    assert(path_text@ =~= target_parts(t@).0);
    let path = match parse_path(ts, path_text) {
        Some(p) => p,
        None => return None,
    };
    if found {
        let qt = t.substring_char(k + 1, n);
        assert(qt@ =~= target_parts(t@).1->0);
        match decode_query(qt) {
            Some(query) => Some(Target { path, query }),
            None => None,
        }
    } else {
        let query: Vec<(String, String)> = Vec::new();
        assert(pairs_view(query@) =~= Seq::empty());
        Some(Target { path, query })
    }
}

} // verus!
