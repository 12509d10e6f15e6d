//! Path templates: `/literal/:variable/...`, split on `/`.

use vstd::prelude::*;
use vstd::string::*;

verus! {

/// One segment of a path template.
pub enum Segment {
    /// Text that the path holds as it is.
    Literal(String),
    /// A named variable, written `:name`.
    Var(String),
}

/// A segment as text.
pub enum SegmentView {
    Literal(Seq<char>),
    Var(Seq<char>),
}

impl View for Segment {
    type V = SegmentView;

    open spec fn view(&self) -> SegmentView {
        match self {
            Segment::Literal(s) => SegmentView::Literal(s@),
            Segment::Var(s) => SegmentView::Var(s@),
        }
    }
}

/// The pieces of `s` between occurrences of `c`; always at least one.
pub open spec fn split_on(s: Seq<char>, c: char) -> Seq<Seq<char>>
    decreases s.len(),
{
    if s.len() == 0 {
        seq![Seq::empty()]
    } else {
        let p = split_on(s.drop_last(), c);
        if s.last() == c {
            p.push(Seq::empty())
        } else {
            p.update(p.len() - 1, p.last().push(s.last()))
        }
    }
}

/// A piece of a template read as a segment: a leading `:` makes it a variable.
pub open spec fn segment_of(t: Seq<char>) -> SegmentView {
    if t.len() > 0 && t[0] == ':' {
        SegmentView::Var(t.drop_first())
    } else {
        SegmentView::Literal(t)
    }
}

/// The segments of a template.
pub open spec fn template_spec(path: Seq<char>) -> Seq<SegmentView> {
    split_on(path, '/').map_values(|t: Seq<char>| segment_of(t))
}

pub open spec fn seg_views(ts: Seq<Segment>) -> Seq<SegmentView> {
    ts.map_values(|t: Segment| t@)
}

fn make_segment(t: &str) -> (r: Segment)
    ensures
        r@ == segment_of(t@),
{
    let n = t.unicode_len();
    if n > 0 && t.get_char(0) == ':' {
        let rest = t.substring_char(1, n);
        assert(rest@ =~= t@.drop_first());
        Segment::Var(rest.to_owned())
    } else {
        Segment::Literal(t.to_owned())
    }
}

pub open spec fn texts_view(v: Seq<String>) -> Seq<Seq<char>> {
    v.map_values(|x: String| x@)
}

/// Splits a text on `/` into its pieces, empty ones included.
pub fn split_text(path: &str) -> (r: Vec<String>)
    ensures
        texts_view(r@) == split_on(path@, '/'),
{
    let n = path.unicode_len();
    let ghost s = path@;
    let mut out: Vec<String> = Vec::new();
    let ghost mut done: Seq<Seq<char>> = Seq::empty();
    let mut start: usize = 0;
    let mut i: usize = 0;
    assert(s.take(0) =~= Seq::<char>::empty());
    assert(s.subrange(0, 0) =~= Seq::<char>::empty());
    assert(done.push(s.subrange(0, 0)) =~= seq![Seq::<char>::empty()]);
    while i < n
        invariant
            n == s.len(),
            s == path@,
            start <= i <= n,
            split_on(s.take(i as int), '/') == done.push(s.subrange(start as int, i as int)),
            out@.len() == done.len(),
            forall|m: int| 0 <= m < done.len() ==> (#[trigger] out@[m])@ == done[m],
        decreases n - i,
    {
        let c = path.get_char(i);
        assert(s.take(i + 1).drop_last() =~= s.take(i as int));
        assert(s.take(i + 1).last() == c);
        if c == '/' {
            let piece = path.substring_char(start, i).to_owned();
            proof {
                done = done.push(s.subrange(start as int, i as int));
            }
            out.push(piece);
            start = i + 1;
            assert(s.subrange(start as int, i + 1) =~= Seq::<char>::empty());
        } else {
            assert(s.subrange(start as int, i + 1) =~= s.subrange(start as int, i as int).push(c));
        }
        i = i + 1;
    }
    let piece = path.substring_char(start, n).to_owned();
    proof {
        assert(s.take(n as int) =~= s);
        done = done.push(s.subrange(start as int, n as int));
    }
    out.push(piece);
    assert(texts_view(out@) =~= done);
    out
}

/// Splits a path template into its segments. A template that starts with `/` has an empty
/// literal first segment.
pub fn parse_template(path: &str) -> (r: Vec<Segment>)
    ensures
        seg_views(r@) == template_spec(path@),
{
    let pieces = split_text(path);
    let ghost want = template_spec(path@);
    let mut segs: Vec<Segment> = Vec::new();
    let mut i: usize = 0;
    while i < pieces.len()
        invariant
            i <= pieces@.len(),
            texts_view(pieces@) == split_on(path@, '/'),
            want == template_spec(path@),
            segs@.len() == i,
            forall|m: int| 0 <= m < i ==> (#[trigger] segs@[m])@ == want[m],
        decreases pieces.len() - i,
    {
        assert(pieces@[i as int]@ == split_on(path@, '/')[i as int]);
        let seg = make_segment(pieces[i].as_str());
        segs.push(seg);
        i = i + 1;
    }
    assert(seg_views(segs@) =~= want);
    segs
}

} // verus!
