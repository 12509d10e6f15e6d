//! Typed field values, the wire message model, and the conversions between them.

use vstd::prelude::*;
use crate::api::{is_path_field, Api, Method};
use crate::schema::{same_text, FieldSpec, Placement, PlacementKind};
use crate::template::{seg_views, Segment, SegmentView};
use crate::codec::{header_text_valid, header_value_ok, json_error, json_parse_error};

verus! {

/// The value of one field of a typed request or response.
pub enum FieldValue {
    /// The value's text: its string form in the path, the query or a header, its JSON text
    /// in the body.
    Text(String),
    /// The string pairs of a query map.
    Pairs(Vec<(String, String)>),
    /// The bytes of a raw body.
    Bytes(Vec<u8>),
}

pub enum ValueView {
    Text(Seq<char>),
    Pairs(Seq<(Seq<char>, Seq<char>)>),
    Bytes(Seq<u8>),
}

pub open spec fn pairs_view(p: Seq<(String, String)>) -> Seq<(Seq<char>, Seq<char>)> {
    p.map_values(|x: (String, String)| (x.0@, x.1@))
}

impl View for FieldValue {
    type V = ValueView;

    open spec fn view(&self) -> ValueView {
        match self {
            FieldValue::Text(s) => ValueView::Text(s@),
            FieldValue::Pairs(p) => ValueView::Pairs(pairs_view(p@)),
            FieldValue::Bytes(b) => ValueView::Bytes(b@),
        }
    }
}

pub open spec fn values_view(vs: Seq<FieldValue>) -> Seq<ValueView> {
    vs.map_values(|v: FieldValue| v@)
}

impl ValueView {
    pub open spec fn text(self) -> Seq<char> {
        match self {
            ValueView::Text(t) => t,
            _ => Seq::empty(),
        }
    }

    pub open spec fn pairs(self) -> Seq<(Seq<char>, Seq<char>)> {
        match self {
            ValueView::Pairs(p) => p,
            _ => Seq::empty(),
        }
    }

    pub open spec fn bytes(self) -> Seq<u8> {
        match self {
            ValueView::Bytes(b) => b,
            _ => Seq::empty(),
        }
    }
}

/// The body of a wire message.
pub enum WireBody {
    /// A JSON object: each member's key and its JSON text.
    Object(Vec<(String, String)>),
    /// One JSON value, as text.
    Json(String),
    /// Opaque bytes.
    Raw(Vec<u8>),
}

pub enum BodyView {
    Object(Seq<(Seq<char>, Seq<char>)>),
    Json(Seq<char>),
    Raw(Seq<u8>),
}

impl View for WireBody {
    type V = BodyView;

    open spec fn view(&self) -> BodyView {
        match self {
            WireBody::Object(p) => BodyView::Object(pairs_view(p@)),
            WireBody::Json(s) => BodyView::Json(s@),
            WireBody::Raw(b) => BodyView::Raw(b@),
        }
    }
}

/// A request as it travels: the path is the sequence of its decoded segments.
pub struct WireRequest {
    pub method: Method,
    pub path: Vec<String>,
    pub query: Vec<(String, String)>,
    pub headers: Vec<(String, String)>,
    pub body: WireBody,
}

pub struct WireRequestView {
    pub method: Method,
    pub path: Seq<Seq<char>>,
    pub query: Seq<(Seq<char>, Seq<char>)>,
    pub headers: Seq<(Seq<char>, Seq<char>)>,
    pub body: BodyView,
}

impl View for WireRequest {
    type V = WireRequestView;

    open spec fn view(&self) -> WireRequestView {
        WireRequestView {
            method: self.method,
            path: self.path@.map_values(|s: String| s@),
            query: pairs_view(self.query@),
            headers: pairs_view(self.headers@),
            body: self.body@,
        }
    }
}

/// Whether a value has the form that a field's placement asks for: a body or newtype body
/// value is valid JSON text, a header value is one that a header can hold.
pub open spec fn fits(f: FieldSpec, v: ValueView) -> bool {
    match f.placement {
        Placement::QueryMap => v is Pairs,
        Placement::RawNewtypeBody => v is Bytes,
        Placement::Header(_) => v is Text && header_text_valid(v.text()),
        Placement::Body | Placement::NewtypeBody => v is Text && json_parse_error(v.text()) is None,
        _ => v is Text,
    }
}

pub open spec fn values_fit(fs: Seq<FieldSpec>, vs: Seq<ValueView>) -> bool {
    &&& fs.len() == vs.len()
    &&& forall|i: int| 0 <= i < fs.len() ==> fits(#[trigger] fs[i], vs[i])
}

/// The key under which a field travels: its header name, or else its own name.
pub open spec fn key_of(f: FieldSpec) -> Seq<char> {
    match f.placement {
        Placement::Header(h) => h@,
        _ => f.name@,
    }
}

/// For each field of kind `k`, in order, its key and its text.
pub open spec fn keyed_pairs(fs: Seq<FieldSpec>, vs: Seq<ValueView>, k: PlacementKind) -> Seq<
    (Seq<char>, Seq<char>),
>
    decreases fs.len(),
{
    if fs.len() == 0 {
        Seq::empty()
    } else {
        let p = keyed_pairs(fs.drop_last(), vs, k);
        if fs.last().placement.kind() == k {
            p.push((key_of(fs.last()), vs[fs.len() - 1].text()))
        } else {
            p
        }
    }
}

/// The position of the first field of kind `k`, or -1.
pub open spec fn find_first(fs: Seq<FieldSpec>, k: PlacementKind) -> int
    decreases fs.len(),
{
    if fs.len() == 0 {
        -1
    } else {
        let p = find_first(fs.drop_last(), k);
        if p >= 0 {
            p
        } else if fs.last().placement.kind() == k {
            fs.len() - 1
        } else {
            -1
        }
    }
}

/// The position of the first path field named `n`, or -1.
pub open spec fn find_path(fs: Seq<FieldSpec>, n: Seq<char>) -> int
    decreases fs.len(),
{
    if fs.len() == 0 {
        -1
    } else {
        let p = find_path(fs.drop_last(), n);
        if p >= 0 {
            p
        } else if is_path_field(fs.last(), n) {
            fs.len() - 1
        } else {
            -1
        }
    }
}

/// The position of the first template variable named `n`, or -1.
pub open spec fn find_var(ts: Seq<SegmentView>, n: Seq<char>) -> int
    decreases ts.len(),
{
    if ts.len() == 0 {
        -1
    } else {
        let p = find_var(ts.drop_last(), n);
        if p >= 0 {
            p
        } else if ts.last() == SegmentView::Var(n) {
            ts.len() - 1
        } else {
            -1
        }
    }
}

/// The decoded path: literals as they stand, each variable replaced by the text of the first
/// path field of its name (empty where there is none).
pub open spec fn path_of(ts: Seq<SegmentView>, fs: Seq<FieldSpec>, vs: Seq<ValueView>) -> Seq<
    Seq<char>,
> {
    ts.map_values(
        |t: SegmentView|
            match t {
                SegmentView::Literal(l) => l,
                SegmentView::Var(n) => if find_path(fs, n) >= 0 {
                    vs[find_path(fs, n)].text()
                } else {
                    Seq::empty()
                },
            },
    )
}

/// The query: the pairs of the query map if there is one, else the query fields.
pub open spec fn query_of(fs: Seq<FieldSpec>, vs: Seq<ValueView>) -> Seq<(Seq<char>, Seq<char>)> {
    let m = find_first(fs, PlacementKind::QueryMap);
    if m >= 0 {
        vs[m].pairs()
    } else {
        keyed_pairs(fs, vs, PlacementKind::Query)
    }
}

/// The body: the newtype body field's text, or the raw body field's bytes, or else the
/// object of the body fields.
pub open spec fn body_of(fs: Seq<FieldSpec>, vs: Seq<ValueView>) -> BodyView {
    let n = find_first(fs, PlacementKind::NewtypeBody);
    let r = find_first(fs, PlacementKind::RawNewtypeBody);
    if n >= 0 {
        BodyView::Json(vs[n].text())
    } else if r >= 0 {
        BodyView::Raw(vs[r].bytes())
    } else {
        BodyView::Object(keyed_pairs(fs, vs, PlacementKind::Body))
    }
}

/// The wire request for the given values.
pub open spec fn wire_of(
    method: Method,
    ts: Seq<SegmentView>,
    fs: Seq<FieldSpec>,
    vs: Seq<ValueView>,
) -> WireRequestView {
    WireRequestView {
        method,
        path: path_of(ts, fs, vs),
        query: query_of(fs, vs),
        headers: keyed_pairs(fs, vs, PlacementKind::Header),
        body: body_of(fs, vs),
    }
}

/// A fault met while turning typed values into a wire message.
pub enum IntoHttpError {
    /// The number of values is not the number of fields.
    LengthMismatch,
    /// The value of the field at this position does not have the form that its placement
    /// asks for, or is a header value that a header cannot hold.
    InvalidValue(usize),
}

pub open spec fn opt_index(o: Option<usize>) -> int {
    match o {
        Some(i) => i as int,
        None => -1,
    }
}

fn text_of(v: &FieldValue) -> (r: String)
    ensures
        r@ == v@.text(),
{
    match v {
        FieldValue::Text(t) => t.clone(),
        _ => String::new(),
    }
}

pub(crate) fn copy_pairs(p: &Vec<(String, String)>) -> (r: Vec<(String, String)>)
    ensures
        r@ == p@,
        pairs_view(r@) == pairs_view(p@),
{
    let mut r: Vec<(String, String)> = Vec::new();
    let mut i: usize = 0;
    while i < p.len()
        invariant
            i <= p@.len(),
            r@ =~= p@.take(i as int),
        decreases p.len() - i,
    {
        let k = p[i].0.clone();
        let v = p[i].1.clone();
        r.push((k, v));
        assert(r@ =~= p@.take(i + 1));
        i = i + 1;
    }
    assert(p@.take(i as int) =~= p@);
    r
}

pub(crate) fn copy_bytes(b: &Vec<u8>) -> (r: Vec<u8>)
    ensures
        r@ == b@,
{
    let mut r: Vec<u8> = Vec::new();
    let mut i: usize = 0;
    while i < b.len()
        invariant
            i <= b@.len(),
            r@ =~= b@.take(i as int),
        decreases b.len() - i,
    {
        r.push(b[i]);
        i = i + 1;
    }
    assert(b@.take(i as int) =~= b@);
    r
}

/// Whether a value has the form that a field's placement asks for.
pub fn value_fits(f: &FieldSpec, v: &FieldValue) -> (r: bool)
    ensures
        r == fits(*f, v@),
{
    match (&f.placement, v) {
        (Placement::QueryMap, FieldValue::Pairs(_)) => true,
        (Placement::QueryMap, _) => false,
        (Placement::RawNewtypeBody, FieldValue::Bytes(_)) => true,
        (Placement::RawNewtypeBody, _) => false,
        (Placement::Header(_), FieldValue::Text(t)) => header_value_ok(t.as_str()),
        (Placement::Body, FieldValue::Text(t)) => json_error(t.as_str()).is_none(),
        (Placement::NewtypeBody, FieldValue::Text(t)) => json_error(t.as_str()).is_none(),
        (_, FieldValue::Text(_)) => true,
        _ => false,
    }
}

/// Checks that there is one value for each field, of the form its placement asks for.
pub fn check_values(fs: &Vec<FieldSpec>, values: &Vec<FieldValue>) -> (r: Result<(), IntoHttpError>)
    ensures
        r is Ok <==> values_fit(fs@, values_view(values@)),
        r matches Err(e) ==> match e {
            IntoHttpError::LengthMismatch => fs@.len() != values@.len(),
            IntoHttpError::InvalidValue(i) => fs@.len() == values@.len() && i < fs@.len()
                && !fits(fs@[i as int], values@[i as int]@),
        },
{
    if fs.len() != values.len() {
        return Err(IntoHttpError::LengthMismatch);
    }
    let mut i: usize = 0;
    while i < fs.len()
        invariant
            i <= fs@.len(),
            fs@.len() == values@.len(),
            forall|j: int| 0 <= j < i ==> fits(#[trigger] fs@[j], values@[j]@),
        decreases fs.len() - i,
    {
        if !value_fits(&fs[i], &values[i]) {
            return Err(IntoHttpError::InvalidValue(i));
        }
        i = i + 1;
    }
    assert forall|j: int| 0 <= j < fs@.len() implies fits(#[trigger] fs@[j], values_view(values@)[j]) by {
        assert(fits(fs@[j], values@[j]@));
    }
    Ok(())
}

/// What a field set puts on the wire besides the path.
pub struct Encoded {
    pub query: Vec<(String, String)>,
    pub headers: Vec<(String, String)>,
    pub body: WireBody,
}

/// Lays out the values of a field set: query pairs, headers and body.
pub fn encode_fields(fs: &Vec<FieldSpec>, values: &Vec<FieldValue>) -> (r: Encoded)
    requires
        fs@.len() == values@.len(),
    ensures
        pairs_view(r.query@) == query_of(fs@, values_view(values@)),
        pairs_view(r.headers@) == keyed_pairs(fs@, values_view(values@), PlacementKind::Header),
        r.body@ == body_of(fs@, values_view(values@)),
{
    let ghost vs = values_view(values@);
    let mut query: Vec<(String, String)> = Vec::new();
    let mut headers: Vec<(String, String)> = Vec::new();
    let mut members: Vec<(String, String)> = Vec::new();
    let mut map: Option<usize> = None;
    let mut newtype: Option<usize> = None;
    let mut raw: Option<usize> = None;
    let mut i: usize = 0;
    while i < fs.len()
        invariant
            i <= fs@.len(),
            fs@.len() == values@.len(),
            vs == values_view(values@),
            pairs_view(query@) == keyed_pairs(fs@.take(i as int), vs, PlacementKind::Query),
            pairs_view(headers@) == keyed_pairs(fs@.take(i as int), vs, PlacementKind::Header),
            pairs_view(members@) == keyed_pairs(fs@.take(i as int), vs, PlacementKind::Body),
            opt_index(map) == find_first(fs@.take(i as int), PlacementKind::QueryMap),
            opt_index(newtype) == find_first(fs@.take(i as int), PlacementKind::NewtypeBody),
            opt_index(raw) == find_first(fs@.take(i as int), PlacementKind::RawNewtypeBody),
            map matches Some(m) ==> m < i,
            newtype matches Some(m) ==> m < i,
            raw matches Some(m) ==> m < i,
        decreases fs.len() - i,
    {
        assert(fs@.take(i + 1).drop_last() =~= fs@.take(i as int));
        assert(fs@.take(i + 1).last() == fs@[i as int]);
        assert(vs[i as int] == values@[i as int]@);
        let f = &fs[i];
        match &f.placement {
            Placement::Body => {
                let t = text_of(&values[i]);
                members.push((f.name.clone(), t));
                assert(pairs_view(members@) =~= keyed_pairs(fs@.take(i + 1), vs, PlacementKind::Body));
            },
            Placement::Query => {
                let t = text_of(&values[i]);
                query.push((f.name.clone(), t));
                assert(pairs_view(query@) =~= keyed_pairs(fs@.take(i + 1), vs, PlacementKind::Query));
            },
            Placement::Header(h) => {
                let t = text_of(&values[i]);
                headers.push((h.clone(), t));
                assert(pairs_view(headers@) =~= keyed_pairs(fs@.take(i + 1), vs, PlacementKind::Header));
            },
            Placement::QueryMap => {
                if map.is_none() {
                    map = Some(i);
                }
            },
            Placement::NewtypeBody => {
                if newtype.is_none() {
                    newtype = Some(i);
                }
            },
            Placement::RawNewtypeBody => {
                if raw.is_none() {
                    raw = Some(i);
                }
            },
            Placement::Path => {},
        }
        i = i + 1;
    }
    assert(fs@.take(i as int) =~= fs@);
    let query = match map {
        Some(m) => match &values[m] {
            FieldValue::Pairs(p) => copy_pairs(p),
            _ => {
                let e: Vec<(String, String)> = Vec::new();
                assert(pairs_view(e@) =~= Seq::empty());
                e
            },
        },
        None => query,
    };
    let body = match newtype {
        Some(n) => WireBody::Json(text_of(&values[n])),
        None => match raw {
            Some(m) => match &values[m] {
                FieldValue::Bytes(b) => WireBody::Raw(copy_bytes(b)),
                _ => {
                    let e: Vec<u8> = Vec::new();
                    assert(e@ =~= Seq::empty());
                    WireBody::Raw(e)
                },
            },
            None => WireBody::Object(members),
        },
    };
    Encoded { query, headers, body }
}

/// The position of the first path field named `n`.
pub fn find_path_index(fs: &Vec<FieldSpec>, n: &str) -> (r: Option<usize>)
    ensures
        opt_index(r) == find_path(fs@, n@),
        r matches Some(i) ==> i < fs@.len(),
{
    let mut i: usize = 0;
    while i < fs.len()
        invariant
            i <= fs@.len(),
            find_path(fs@.take(i as int), n@) == -1,
        decreases fs.len() - i,
    {
        assert(fs@.take(i + 1).drop_last() =~= fs@.take(i as int));
        let is_path = match &fs[i].placement {
            Placement::Path => true,
            _ => false,
        };
        if is_path && same_text(fs[i].name.as_str(), n) {
            proof {
                lemma_find_path_prefix(fs@, n@, i + 1);
            }
            return Some(i);
        }
        i = i + 1;
    }
    assert(fs@.take(i as int) =~= fs@);
    None
}

/// Once found in a prefix, the first path field stays the first.
proof fn lemma_find_path_prefix(fs: Seq<FieldSpec>, n: Seq<char>, k: int)
    requires
        0 <= k <= fs.len(),
        find_path(fs.take(k), n) >= 0,
    ensures
        find_path(fs, n) == find_path(fs.take(k), n),
    decreases fs.len() - k,
{
    if k < fs.len() {
        assert(fs.take(k + 1).drop_last() =~= fs.take(k));
        lemma_find_path_prefix(fs, n, k + 1);
    } else {
        assert(fs.take(k) =~= fs);
    }
}

/// Fills the path template: literals as they stand, each variable with the text of the first
/// path field of its name.
pub fn fill_path(ts: &Vec<Segment>, fs: &Vec<FieldSpec>, values: &Vec<FieldValue>) -> (r: Vec<String>)
    requires
        fs@.len() == values@.len(),
    ensures
        r@.map_values(|s: String| s@) == path_of(seg_views(ts@), fs@, values_view(values@)),
{
    let ghost want = path_of(seg_views(ts@), fs@, values_view(values@));
    let mut out: Vec<String> = Vec::new();
    let mut j: usize = 0;
    while j < ts.len()
        invariant
            j <= ts@.len(),
            fs@.len() == values@.len(),
            want == path_of(seg_views(ts@), fs@, values_view(values@)),
            out@.len() == j,
            forall|m: int| 0 <= m < j ==> (#[trigger] out@[m])@ == want[m],
        decreases ts.len() - j,
    {
        assert(seg_views(ts@)[j as int] == ts@[j as int]@);
        let seg = match &ts[j] {
            Segment::Literal(l) => l.clone(),
            Segment::Var(n) => match find_path_index(fs, n.as_str()) {
                Some(k) => {
                    assert(values_view(values@)[k as int] == values@[k as int]@);
                    text_of(&values[k])
                },
                None => String::new(),
            },
        };
        out.push(seg);
        j = j + 1;
    }
    assert(out@.map_values(|s: String| s@) =~= want);
    out
}

/// Converts a typed request into a wire request.
pub fn request_to_wire(api: &Api, values: &Vec<FieldValue>) -> (r: Result<WireRequest, IntoHttpError>)
    ensures
        r is Ok <==> values_fit(api.request_fields@, values_view(values@)),
        r matches Ok(w) ==> w@ == wire_of(
            api.metadata.method,
            seg_views(api.template@),
            api.request_fields@,
            values_view(values@),
        ),
        r matches Err(e) ==> match e {
            IntoHttpError::LengthMismatch => api.request_fields@.len() != values@.len(),
            IntoHttpError::InvalidValue(i) => api.request_fields@.len() == values@.len() && i
                < values@.len() && !fits(api.request_fields@[i as int], values@[i as int]@),
        },
{
    let fs = &api.request_fields;
    match check_values(fs, values) {
        Err(e) => return Err(e),
        Ok(()) => {},
    }
    let enc = encode_fields(fs, values);
    let path = fill_path(&api.template, fs, values);
    let Encoded { query, headers, body } = enc;
    Ok(WireRequest { method: api.metadata.method, path, query, headers, body })
}

/// The text paired with the first occurrence of `key`.
pub open spec fn lookup(p: Seq<(Seq<char>, Seq<char>)>, key: Seq<char>) -> Option<Seq<char>>
    decreases p.len(),
{
    if p.len() == 0 {
        None
    } else {
        let q = lookup(p.drop_last(), key);
        if q is Some {
            q
        } else if p.last().0 == key {
            Some(p.last().1)
        } else {
            None
        }
    }
}

/// Whether the field's value travels in the body.
pub open spec fn in_body(f: FieldSpec) -> bool {
    f.placement is Body || f.placement is NewtypeBody || f.placement is RawNewtypeBody
}

/// The value of one field read from a wire request, if it is there.
pub open spec fn decode_field(ts: Seq<SegmentView>, w: WireRequestView, f: FieldSpec) -> Option<
    ValueView,
> {
    match f.placement {
        Placement::Body => match w.body {
            BodyView::Object(p) => match lookup(p, f.name@) {
                Some(t) => Some(ValueView::Text(t)),
                None => None,
            },
            _ => None,
        },
        Placement::NewtypeBody => match w.body {
            BodyView::Json(t) => Some(ValueView::Text(t)),
            _ => None,
        },
        Placement::RawNewtypeBody => match w.body {
            BodyView::Raw(b) => Some(ValueView::Bytes(b)),
            _ => None,
        },
        Placement::Path => {
            let k = find_var(ts, f.name@);
            if 0 <= k < w.path.len() {
                Some(ValueView::Text(w.path[k]))
            } else {
                None
            }
        },
        Placement::Query => match lookup(w.query, f.name@) {
            Some(t) => Some(ValueView::Text(t)),
            None => None,
        },
        Placement::QueryMap => Some(ValueView::Pairs(w.query)),
        Placement::Header(h) => match lookup(w.headers, h@) {
            Some(t) => Some(ValueView::Text(t)),
            None => None,
        },
    }
}

/// Every field can be read from the wire request.
pub open spec fn decodes(ts: Seq<SegmentView>, w: WireRequestView, fs: Seq<FieldSpec>) -> bool {
    forall|i: int| 0 <= i < fs.len() ==> (#[trigger] decode_field(ts, w, fs[i])) is Some
}

/// The values read from a wire request, one for each field.
pub open spec fn decoded(ts: Seq<SegmentView>, w: WireRequestView, fs: Seq<FieldSpec>) -> Seq<
    ValueView,
> {
    fs.map_values(|f: FieldSpec| decode_field(ts, w, f)->0)
}

/// What could not be read from a wire message.
#[derive(Clone, Copy, PartialEq, Eq, Structural, Debug)]
pub enum DecodeFailure {
    /// The field at this position.
    Field(usize),
    /// The path does not match the template: another number of segments, or a literal
    /// segment that differs.
    PathMismatch,
}

/// The path has one segment for each template segment, and holds each literal as it is.
pub open spec fn path_matches(ts: Seq<SegmentView>, path: Seq<Seq<char>>) -> bool {
    &&& path.len() == ts.len()
    &&& forall|i: int| 0 <= i < ts.len() ==> (#[trigger] ts[i] matches SegmentView::Literal(l) ==> path[i] == l)
}

/// Whether the path matches the template.
pub fn path_fits(ts: &Vec<Segment>, path: &Vec<String>) -> (r: bool)
    ensures
        r == path_matches(seg_views(ts@), path@.map_values(|s: String| s@)),
{
    let ghost pv = path@.map_values(|s: String| s@);
    if ts.len() != path.len() {
        return false;
    }
    let mut i: usize = 0;
    while i < ts.len()
        invariant
            i <= ts@.len(),
            ts@.len() == path@.len(),
            pv == path@.map_values(|s: String| s@),
            forall|j: int| 0 <= j < i ==> (#[trigger] seg_views(ts@)[j] matches SegmentView::Literal(l) ==> pv[j] == l),
        decreases ts.len() - i,
    {
        assert(seg_views(ts@)[i as int] == ts@[i as int]@);
        assert(pv[i as int] == path@[i as int]@);
        match &ts[i] {
            Segment::Literal(l) => {
                if !same_text(l.as_str(), path[i].as_str()) {
                    return false;
                }
            },
            Segment::Var(_) => {},
        }
        i = i + 1;
    }
    true
}

/// The wire request could not be read as a typed request; the request is kept.
pub struct RequestDeserializationError {
    /// What could not be read.
    pub failure: DecodeFailure,
    /// The request as it came.
    pub request: WireRequest,
}

/// A request as received: its method, its target (path and query) as text, its headers and
/// its body bytes.
pub struct RawRequest {
    pub method: Method,
    pub target: String,
    pub headers: Vec<(String, String)>,
    pub body: Vec<u8>,
}

/// What could not be read from a received request.
pub enum RawFailure {
    /// The body is not what the fields ask for; the parser's message.
    Body(String),
    /// The target does not read: its path pieces or its query.
    Target,
    /// The fields could not be read from the request.
    Fields(DecodeFailure),
}

/// A received request could not be read as a typed request; the request is kept as it came.
pub struct RawRequestError {
    pub failure: RawFailure,
    pub request: RawRequest,
}

/// A fault met while turning a wire request into a typed request.
pub enum FromHttpRequestError {
    Deserialization(RequestDeserializationError),
    Malformed(RawRequestError),
}

proof fn lemma_lookup_prefix(p: Seq<(Seq<char>, Seq<char>)>, key: Seq<char>, k: int)
    requires
        0 <= k <= p.len(),
        lookup(p.take(k), key) is Some,
    ensures
        lookup(p, key) == lookup(p.take(k), key),
    decreases p.len() - k,
{
    if k < p.len() {
        assert(p.take(k + 1).drop_last() =~= p.take(k));
        lemma_lookup_prefix(p, key, k + 1);
    } else {
        assert(p.take(k) =~= p);
    }
}

/// The text paired with the first occurrence of `key`.
pub fn lookup_pair(p: &Vec<(String, String)>, key: &str) -> (r: Option<String>)
    ensures
        match r {
            Some(t) => lookup(pairs_view(p@), key@) == Some(t@),
            None => lookup(pairs_view(p@), key@) is None,
        },
{
    let ghost pv = pairs_view(p@);
    let mut i: usize = 0;
    while i < p.len()
        invariant
            i <= p@.len(),
            pv == pairs_view(p@),
            lookup(pv.take(i as int), key@) is None,
        decreases p.len() - i,
    {
        assert(pv.take(i + 1).drop_last() =~= pv.take(i as int));
        assert(pv.take(i + 1).last() == pv[i as int]);
        if same_text(p[i].0.as_str(), key) {
            proof {
                lemma_lookup_prefix(pv, key@, i + 1);
            }
            return Some(p[i].1.clone());
        }
        i = i + 1;
    }
    assert(pv.take(i as int) =~= pv);
    None
}

proof fn lemma_find_var_prefix(ts: Seq<SegmentView>, n: Seq<char>, k: int)
    requires
        0 <= k <= ts.len(),
        find_var(ts.take(k), n) >= 0,
    ensures
        find_var(ts, n) == find_var(ts.take(k), n),
    decreases ts.len() - k,
{
    if k < ts.len() {
        assert(ts.take(k + 1).drop_last() =~= ts.take(k));
        lemma_find_var_prefix(ts, n, k + 1);
    } else {
        assert(ts.take(k) =~= ts);
    }
}

/// The position of the first template variable named `n`.
pub fn find_var_index(ts: &Vec<Segment>, n: &str) -> (r: Option<usize>)
    ensures
        opt_index(r) == find_var(seg_views(ts@), n@),
{
    let ghost tv = seg_views(ts@);
    let mut i: usize = 0;
    while i < ts.len()
        invariant
            i <= ts@.len(),
            tv == seg_views(ts@),
            find_var(tv.take(i as int), n@) == -1,
        decreases ts.len() - i,
    {
        assert(tv.take(i + 1).drop_last() =~= tv.take(i as int));
        assert(tv.take(i + 1).last() == ts@[i as int]@);
        match &ts[i] {
            Segment::Var(v) => {
                if same_text(v.as_str(), n) {
                    proof {
                        lemma_find_var_prefix(tv, n@, i + 1);
                    }
                    return Some(i);
                }
            },
            Segment::Literal(_) => {},
        }
        i = i + 1;
    }
    assert(tv.take(i as int) =~= tv);
    None
}

/// Reads one field's value from a wire request.
pub fn decode_one(ts: &Vec<Segment>, w: &WireRequest, f: &FieldSpec) -> (r: Option<FieldValue>)
    ensures
        match r {
            Some(v) => decode_field(seg_views(ts@), w@, *f) == Some(v@),
            None => decode_field(seg_views(ts@), w@, *f) is None,
        },
{
    match &f.placement {
        Placement::Body => match &w.body {
            WireBody::Object(p) => match lookup_pair(p, f.name.as_str()) {
                Some(t) => Some(FieldValue::Text(t)),
                None => None,
            },
            _ => None,
        },
        Placement::NewtypeBody => match &w.body {
            WireBody::Json(t) => Some(FieldValue::Text(t.clone())),
            _ => None,
        },
        Placement::RawNewtypeBody => match &w.body {
            WireBody::Raw(b) => Some(FieldValue::Bytes(copy_bytes(b))),
            _ => None,
        },
        Placement::Path => match find_var_index(ts, f.name.as_str()) {
            Some(k) => if k < w.path.len() {
                Some(FieldValue::Text(w.path[k].clone()))
            } else {
                None
            },
            None => None,
        },
        Placement::Query => match lookup_pair(&w.query, f.name.as_str()) {
            Some(t) => Some(FieldValue::Text(t)),
            None => None,
        },
        Placement::QueryMap => Some(FieldValue::Pairs(copy_pairs(&w.query))),
        Placement::Header(h) => match lookup_pair(&w.headers, h.as_str()) {
            Some(t) => Some(FieldValue::Text(t)),
            None => None,
        },
    }
}

/// Reads the values of a field set from a wire request: the fields carried in the body first,
/// then the path against the template, then the other fields.
pub fn decode_fields(ts: &Vec<Segment>, w: &WireRequest, fs: &Vec<FieldSpec>) -> (r: Result<
    Vec<FieldValue>,
    DecodeFailure,
>)
    ensures
        r is Ok <==> path_matches(seg_views(ts@), w@.path) && decodes(seg_views(ts@), w@, fs@),
        r matches Ok(vs) ==> values_view(vs@) == decoded(seg_views(ts@), w@, fs@),
        r matches Err(e) ==> decode_failure_ok(seg_views(ts@), w@, fs@, e),
{
    let ghost tv = seg_views(ts@);
    let mut i: usize = 0;
    while i < fs.len()
        invariant
            i <= fs@.len(),
            tv == seg_views(ts@),
            forall|j: int|
                0 <= j < i && in_body(fs@[j]) ==> (#[trigger] decode_field(tv, w@, fs@[j])) is Some,
        decreases fs.len() - i,
    {
        let body = match &fs[i].placement {
            Placement::Body | Placement::NewtypeBody | Placement::RawNewtypeBody => true,
            _ => false,
        };
        if body {
            match decode_one(ts, w, &fs[i]) {
                None => return Err(DecodeFailure::Field(i)),
                Some(_) => {},
            }
        }
        i = i + 1;
    }
    if !path_fits(ts, &w.path) {
        return Err(DecodeFailure::PathMismatch);
    }
    let mut out: Vec<FieldValue> = Vec::new();
    let mut k: usize = 0;
    while k < fs.len()
        invariant
            k <= fs@.len(),
            tv == seg_views(ts@),
            path_matches(tv, w@.path),
            forall|j: int|
                0 <= j < fs@.len() && in_body(fs@[j]) ==> (#[trigger] decode_field(tv, w@, fs@[j])) is Some,
            out@.len() == k,
            forall|j: int| 0 <= j < k ==> (#[trigger] decode_field(tv, w@, fs@[j])) == Some(out@[j]@),
        decreases fs.len() - k,
    {
        match decode_one(ts, w, &fs[k]) {
            None => return Err(DecodeFailure::Field(k)),
            Some(v) => out.push(v),
        }
        k = k + 1;
    }
    assert(values_view(out@) =~= decoded(tv, w@, fs@));
    Ok(out)
}

/// Some field carried in the body cannot be read.
pub open spec fn body_fails(ts: Seq<SegmentView>, w: WireRequestView, fs: Seq<FieldSpec>) -> bool {
    exists|j: int| 0 <= j < fs.len() && in_body(fs[j]) && (#[trigger] decode_field(ts, w, fs[j])) is None
}

/// What a failure reports, in the order of reading: a body field that fails where one does;
/// else a path that does not match where it does not; else some field that fails.
pub open spec fn decode_failure_ok(
    ts: Seq<SegmentView>,
    w: WireRequestView,
    fs: Seq<FieldSpec>,
    e: DecodeFailure,
) -> bool {
    match e {
        DecodeFailure::Field(i) => {
            &&& i < fs.len()
            &&& decode_field(ts, w, fs[i as int]) is None
            &&& body_fails(ts, w, fs) ==> in_body(fs[i as int])
            &&& !in_body(fs[i as int]) ==> path_matches(ts, w.path)
        },
        DecodeFailure::PathMismatch => !body_fails(ts, w, fs) && !path_matches(ts, w.path),
    }
}

/// Converts a wire request into a typed request. The body is read first, then the path is
/// matched against the template, then the other fields are read; a request that cannot be
/// read comes back inside the error.
pub fn request_from_wire(api: &Api, w: WireRequest) -> (r: Result<Vec<FieldValue>, FromHttpRequestError>)
    ensures
        r is Ok <==> path_matches(seg_views(api.template@), w@.path) && decodes(
            seg_views(api.template@),
            w@,
            api.request_fields@,
        ),
        r matches Ok(vs) ==> values_view(vs@) == decoded(seg_views(api.template@), w@, api.request_fields@),
        r matches Err(FromHttpRequestError::Deserialization(e)) ==> {
            &&& e.request == w
            &&& decode_failure_ok(seg_views(api.template@), w@, api.request_fields@, e.failure)
        },
{
    match decode_fields(&api.template, &w, &api.request_fields) {
        Ok(vs) => Ok(vs),
        Err(f) => Err(FromHttpRequestError::Deserialization(RequestDeserializationError { failure: f, request: w })),
    }
}

/// A response as it travels.
pub struct WireResponse {
    pub status: u16,
    pub headers: Vec<(String, String)>,
    pub body: WireBody,
}

pub struct WireResponseView {
    pub status: u16,
    pub headers: Seq<(Seq<char>, Seq<char>)>,
    pub body: BodyView,
}

impl View for WireResponse {
    type V = WireResponseView;

    open spec fn view(&self) -> WireResponseView {
        WireResponseView { status: self.status, headers: pairs_view(self.headers@), body: self.body@ }
    }
}

/// A response read through the same rules as a request that has no path and no query.
pub open spec fn response_as_request(w: WireResponseView) -> WireRequestView {
    WireRequestView {
        method: Method::Get,
        path: Seq::empty(),
        query: Seq::empty(),
        headers: w.headers,
        body: w.body,
    }
}

/// The status of a successful response.
pub const STATUS_OK: u16 = 200;

/// The lowest status that signals failure.
pub const FIRST_ERROR_STATUS: u16 = 400;

/// A response whose status signals failure.
pub struct ServerError {
    pub response: WireResponse,
}

/// The wire response could not be read as a typed response; the response is kept.
pub struct ResponseDeserializationError {
    /// What could not be read.
    pub failure: DecodeFailure,
    /// The response as it came.
    pub response: WireResponse,
}

/// A response as received: its status, its headers and its body bytes.
pub struct RawResponse {
    pub status: u16,
    pub headers: Vec<(String, String)>,
    pub body: Vec<u8>,
}

/// The body of a received response is not what the fields ask for; the parser's message, and
/// the response as it came.
pub struct RawResponseError {
    pub message: String,
    pub response: RawResponse,
}

/// A fault met while turning a wire response into a typed response.
pub enum FromHttpResponseError {
    Deserialization(ResponseDeserializationError),
    Http(ServerError),
    Malformed(RawResponseError),
}

/// Converts a typed response into a successful wire response.
pub fn response_to_wire(api: &Api, values: &Vec<FieldValue>) -> (r: Result<WireResponse, IntoHttpError>)
    ensures
        r is Ok <==> values_fit(api.response_fields@, values_view(values@)),
        r matches Ok(w) ==> {
            &&& w.status == STATUS_OK
            &&& w@.headers == keyed_pairs(api.response_fields@, values_view(values@), PlacementKind::Header)
            &&& w@.body == body_of(api.response_fields@, values_view(values@))
        },
        r matches Err(e) ==> match e {
            IntoHttpError::LengthMismatch => api.response_fields@.len() != values@.len(),
            IntoHttpError::InvalidValue(i) => api.response_fields@.len() == values@.len() && i
                < values@.len() && !fits(api.response_fields@[i as int], values@[i as int]@),
        },
{
    let fs = &api.response_fields;
    match check_values(fs, values) {
        Err(e) => return Err(e),
        Ok(()) => {},
    }
    let enc = encode_fields(fs, values);
    let Encoded { query: _, headers, body } = enc;
    Ok(WireResponse { status: STATUS_OK, headers, body })
}

/// Converts a wire response into a typed response. A status of 400 or more gives a server
/// error that carries the response, whatever its body; otherwise the body is read first.
pub fn response_from_wire(api: &Api, w: WireResponse) -> (r: Result<Vec<FieldValue>, FromHttpResponseError>)
    ensures
        w.status >= FIRST_ERROR_STATUS ==> (r matches Err(FromHttpResponseError::Http(e)) && e.response == w),
        w.status < FIRST_ERROR_STATUS ==> {
            &&& r is Ok <==> decodes(Seq::empty(), response_as_request(w@), api.response_fields@)
            &&& r matches Ok(vs) ==> values_view(vs@) == decoded(
                Seq::empty(),
                response_as_request(w@),
                api.response_fields@,
            )
            &&& r matches Err(e) ==> (e matches FromHttpResponseError::Deserialization(d) && d.response == w
                && d.failure is Field && decode_failure_ok(
                Seq::empty(),
                response_as_request(w@),
                api.response_fields@,
                d.failure,
            ))
        },
{
    if w.status >= FIRST_ERROR_STATUS {
        return Err(FromHttpResponseError::Http(ServerError { response: w }));
    }
    let WireResponse { status, headers, body } = w;
    let req = WireRequest { method: Method::Get, path: Vec::new(), query: Vec::new(), headers, body };
    let none: Vec<Segment> = Vec::new();
    assert(seg_views(none@) =~= Seq::empty());
    assert(req@.path =~= Seq::empty());
    assert(req@.query =~= Seq::empty());
    assert(req@ == response_as_request(w@));
    match decode_fields(&none, &req, &api.response_fields) {
        Ok(vs) => Ok(vs),
        Err(f) => {
            let WireRequest { method: _, path: _, query: _, headers, body } = req;
            Err(
                FromHttpResponseError::Deserialization(
                    ResponseDeserializationError { failure: f, response: WireResponse { status, headers, body } },
                ),
            )
        },
    }
}

} // verus!
