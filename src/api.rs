//! The endpoint model: metadata, the path template and the two classified field sets,
//! built only from a description that breaks none of the rules.

use vstd::prelude::*;
use crate::schema::{
    check_field_set, classify_all, classify_fields, count_kind, declared, field_set_errors,
    first_match, newtype_count, obeys, push_if, same_text, second_match, FieldSpec, Placement,
    PlacementKind, RawField, Rule, SchemaError,
};
use crate::template::{parse_template, seg_views, template_spec, Segment, SegmentView};

verus! {

/// An HTTP method.
#[derive(Clone, Copy, PartialEq, Eq, Structural, Debug)]
pub enum Method {
    Get,
    Post,
    Put,
    Delete,
    Head,
    Options,
    Patch,
    Connect,
    Trace,
}

/// Metadata about an API endpoint.
pub struct Metadata {
    /// A human-readable description of the endpoint.
    pub description: String,
    /// The HTTP method used by this endpoint.
    pub method: Method,
    /// A unique identifier for this endpoint.
    pub name: String,
    /// The path template of this endpoint's URL, with `:name` where a variable stands.
    pub path: String,
    /// Whether or not this endpoint is rate limited by the server.
    pub rate_limited: bool,
    /// Whether or not the server requires an authenticated user for this endpoint.
    pub requires_authentication: bool,
}

/// An endpoint description as read: metadata and the declared fields of both blocks.
pub struct RawApi {
    pub metadata: Metadata,
    pub request: Vec<RawField>,
    pub response: Vec<RawField>,
}

/// A validated endpoint model.
pub struct Api {
    pub metadata: Metadata,
    pub template: Vec<Segment>,
    pub request_fields: Vec<FieldSpec>,
    pub response_fields: Vec<FieldSpec>,
}

pub open spec fn is_path_field(f: FieldSpec, name: Seq<char>) -> bool {
    f.placement is Path && f.name@ == name
}

/// Some path field is named `name`.
pub open spec fn has_path_field(fs: Seq<FieldSpec>, name: Seq<char>) -> bool {
    exists|i: int| 0 <= i < fs.len() && is_path_field(#[trigger] fs[i], name)
}

/// The template has a variable named `name`.
pub open spec fn has_var(ts: Seq<SegmentView>, name: Seq<char>) -> bool {
    exists|i: int| 0 <= i < ts.len() && #[trigger] ts[i] == SegmentView::Var(name)
}

/// A fault for each template variable, by position, that no path field matches.
pub open spec fn missing_path_errors(ts: Seq<SegmentView>, fs: Seq<FieldSpec>) -> Seq<SchemaError>
    decreases ts.len(),
{
    if ts.len() == 0 {
        Seq::empty()
    } else {
        let p = missing_path_errors(ts.drop_last(), fs);
        match ts.last() {
            SegmentView::Var(n) => if has_path_field(fs, n) {
                p
            } else {
                p.push(SchemaError::MissingPathField((ts.len() - 1) as usize))
            },
            SegmentView::Literal(_) => p,
        }
    }
}

/// A fault for each path field, by declared position, that no template variable matches.
pub open spec fn unmatched_path_errors(ts: Seq<SegmentView>, fs: Seq<FieldSpec>) -> Seq<SchemaError>
    decreases fs.len(),
{
    if fs.len() == 0 {
        Seq::empty()
    } else {
        let p = unmatched_path_errors(ts, fs.drop_last());
        if fs.last().placement is Path && !has_var(ts, fs.last().name@) {
            p.push(SchemaError::UnmatchedPathField(fs.last().index))
        } else {
            p
        }
    }
}

/// The header name of a header field.
pub open spec fn header_name(f: FieldSpec) -> Option<Seq<char>> {
    match f.placement {
        Placement::Header(h) => Some(h@),
        _ => None,
    }
}

/// An earlier field has the name of the field at `i`.
pub open spec fn name_clash(fs: Seq<FieldSpec>, i: int) -> bool {
    exists|j: int| 0 <= j < i && #[trigger] fs[j].name@ == fs[i].name@
}

/// The field at `i` is a header field, and an earlier header field has its header name.
pub open spec fn header_clash(fs: Seq<FieldSpec>, i: int) -> bool {
    header_name(fs[i]) is Some && exists|j: int| 0 <= j < i && #[trigger] header_name(fs[j]) == header_name(fs[i])
}

/// A fault for each field that repeats an earlier name or header name.
pub open spec fn duplicate_errors(fs: Seq<FieldSpec>) -> Seq<SchemaError>
    decreases fs.len(),
{
    if fs.len() == 0 {
        Seq::empty()
    } else {
        let i = fs.len() - 1;
        let p = duplicate_errors(fs.drop_last());
        let p1 = if name_clash(fs, i) {
            p.push(SchemaError::DuplicateName(fs[i].index))
        } else {
            p
        };
        if header_clash(fs, i) {
            p1.push(SchemaError::DuplicateHeader(fs[i].index))
        } else {
            p1
        }
    }
}

/// Every fault of an endpoint whose fields are classified.
pub open spec fn api_errors(path: Seq<char>, req: Seq<FieldSpec>, resp: Seq<FieldSpec>) -> Seq<SchemaError> {
    field_set_errors(req, false) + field_set_errors(resp, true) + duplicate_errors(req)
        + duplicate_errors(resp) + missing_path_errors(
        template_spec(path),
        req,
    ) + unmatched_path_errors(template_spec(path), req)
}

/// Every fault of an endpoint description.
pub open spec fn build_errors(raw: RawApi) -> Seq<SchemaError> {
    classify_all(raw.request@).1 + classify_all(raw.response@).1 + api_errors(
        raw.metadata.path@,
        classify_all(raw.request@).0,
        classify_all(raw.response@).0,
    )
}

impl Api {
    /// The model breaks none of the rules and its template is that of its path.
    pub open spec fn wf(&self) -> bool {
        &&& api_errors(self.metadata.path@, self.request_fields@, self.response_fields@).len() == 0
        &&& seg_views(self.template@) == template_spec(self.metadata.path@)
    }
}

/// Whether a path field named `name` is among `fs`.
pub fn find_path_field(fs: &Vec<FieldSpec>, name: &str) -> (r: bool)
    ensures
        r == has_path_field(fs@, name@),
{
    let mut i: usize = 0;
    while i < fs.len()
        invariant
            i <= fs@.len(),
            forall|j: int| 0 <= j < i ==> !is_path_field(#[trigger] fs@[j], name@),
        decreases fs.len() - i,
    {
        let is_path = match &fs[i].placement {
            Placement::Path => true,
            _ => false,
        };
        if is_path && same_text(fs[i].name.as_str(), name) {
            assert(is_path_field(fs@[i as int], name@));
            return true;
        }
        i = i + 1;
    }
    false
}

/// Whether the template has a variable named `name`.
pub fn find_var(ts: &Vec<Segment>, name: &str) -> (r: bool)
    ensures
        r == has_var(seg_views(ts@), name@),
{
    let mut i: usize = 0;
    while i < ts.len()
        invariant
            i <= ts@.len(),
            forall|j: int| 0 <= j < i ==> #[trigger] seg_views(ts@)[j] != SegmentView::Var(name@),
        decreases ts.len() - i,
    {
        match &ts[i] {
            Segment::Var(v) => {
                if same_text(v.as_str(), name) {
                    assert(seg_views(ts@)[i as int] == SegmentView::Var(name@));
                    return true;
                }
            },
            Segment::Literal(_) => {},
        }
        i = i + 1;
    }
    false
}

/// Checks that template variables and path fields match one to one.
pub fn check_path_fields(ts: &Vec<Segment>, fs: &Vec<FieldSpec>) -> (r: Vec<SchemaError>)
    ensures
        r@ == missing_path_errors(seg_views(ts@), fs@) + unmatched_path_errors(seg_views(ts@), fs@),
{
    let ghost tv = seg_views(ts@);
    let mut missing: Vec<SchemaError> = Vec::new();
    let mut i: usize = 0;
    while i < ts.len()
        invariant
            i <= ts@.len(),
            tv == seg_views(ts@),
            missing@ == missing_path_errors(tv.take(i as int), fs@),
        decreases ts.len() - i,
    {
        assert(tv.take(i + 1).drop_last() =~= tv.take(i as int));
        assert(tv.take(i + 1).last() == ts@[i as int]@);
        match &ts[i] {
            Segment::Var(v) => {
                if !find_path_field(fs, v.as_str()) {
                    missing.push(SchemaError::MissingPathField(i));
                }
            },
            Segment::Literal(_) => {},
        }
        i = i + 1;
    }
    assert(tv.take(i as int) =~= tv);
    let mut unmatched: Vec<SchemaError> = Vec::new();
    let mut j: usize = 0;
    while j < fs.len()
        invariant
            j <= fs@.len(),
            tv == seg_views(ts@),
            unmatched@ == unmatched_path_errors(tv, fs@.take(j as int)),
        decreases fs.len() - j,
    {
        assert(fs@.take(j + 1).drop_last() =~= fs@.take(j as int));
        let is_path = match &fs[j].placement {
            Placement::Path => true,
            _ => false,
        };
        if is_path && !find_var(ts, fs[j].name.as_str()) {
            unmatched.push(SchemaError::UnmatchedPathField(fs[j].index));
        }
        j = j + 1;
    }
    assert(fs@.take(j as int) =~= fs@);
    missing.append(&mut unmatched);
    missing
}

fn same_header(a: &FieldSpec, b: &FieldSpec) -> (r: bool)
    ensures
        r == (header_name(*a) is Some && header_name(*a) == header_name(*b)),
{
    match (&a.placement, &b.placement) {
        (Placement::Header(x), Placement::Header(y)) => same_text(x.as_str(), y.as_str()),
        (Placement::Header(_), _) => false,
        _ => false,
    }
}

/// Reports each field that repeats an earlier field's name, or an earlier header field's
/// header name.
pub fn check_duplicates(fs: &Vec<FieldSpec>) -> (r: Vec<SchemaError>)
    ensures
        r@ == duplicate_errors(fs@),
{
    let mut errs: Vec<SchemaError> = Vec::new();
    let mut i: usize = 0;
    while i < fs.len()
        invariant
            i <= fs@.len(),
            errs@ == duplicate_errors(fs@.take(i as int)),
        decreases fs.len() - i,
    {
        let ghost t = fs@.take(i + 1);
        assert(t.drop_last() =~= fs@.take(i as int));
        let mut name_seen = false;
        let mut header_seen = false;
        let mut j: usize = 0;
        while j < i
            invariant
                j <= i < fs@.len(),
                t == fs@.take(i + 1),
                name_seen <==> exists|k: int| 0 <= k < j && #[trigger] t[k].name@ == t[i as int].name@,
                header_seen <==> (header_name(t[i as int]) is Some && exists|k: int|
                    0 <= k < j && #[trigger] header_name(t[k]) == header_name(t[i as int])),
            decreases i - j,
        {
            assert(t[j as int] == fs@[j as int] && t[i as int] == fs@[i as int]);
            if same_text(fs[j].name.as_str(), fs[i].name.as_str()) {
                name_seen = true;
            }
            if same_header(&fs[i], &fs[j]) {
                header_seen = true;
            }
            j = j + 1;
        }
        assert(name_seen == name_clash(t, i as int));
        assert(header_seen == header_clash(t, i as int));
        if name_seen {
            errs.push(SchemaError::DuplicateName(fs[i].index));
        }
        if header_seen {
            errs.push(SchemaError::DuplicateHeader(fs[i].index));
        }
        i = i + 1;
    }
    assert(fs@.take(i as int) =~= fs@);
    errs
}

/// Checks an endpoint whose fields are classified: the template of its path and every fault.
pub fn check_api(path: &str, req: &Vec<FieldSpec>, resp: &Vec<FieldSpec>) -> (r: (
    Vec<Segment>,
    Vec<SchemaError>,
))
    ensures
        seg_views(r.0@) == template_spec(path@),
        r.1@ == api_errors(path@, req@, resp@),
{
    let template = parse_template(path);
    let mut errs = check_field_set(req, false);
    let mut more = check_field_set(resp, true);
    errs.append(&mut more);
    let mut dups = check_duplicates(req);
    errs.append(&mut dups);
    let mut dups_resp = check_duplicates(resp);
    errs.append(&mut dups_resp);
    let mut paths = check_path_fields(&template, req);
    errs.append(&mut paths);
    assert(errs@ =~= api_errors(path@, req@, resp@));
    (template, errs)
}

/// Builds the endpoint model from its description, or reports every fault found.
pub fn build_api(raw: RawApi) -> (r: Result<Api, Vec<SchemaError>>)
    ensures
        build_errors(raw).len() == 0 <==> r is Ok,
        r matches Ok(api) ==> {
            &&& api.wf()
            &&& api.metadata == raw.metadata
            &&& api.request_fields@ == classify_all(raw.request@).0
            &&& api.response_fields@ == classify_all(raw.response@).0
        },
        r matches Err(es) ==> es@ == build_errors(raw),
{
    let RawApi { metadata, request, response } = raw;
    let (req, mut errs) = classify_fields(request);
    let (resp, mut more) = classify_fields(response);
    errs.append(&mut more);
    let (template, mut faults) = check_api(metadata.path.as_str(), &req, &resp);
    errs.append(&mut faults);
    assert(errs@ =~= build_errors(raw));
    if errs.len() == 0 {
        Ok(Api { metadata, template, request_fields: req, response_fields: resp })
    } else {
        Err(errs)
    }
}

pub proof fn lemma_count_kind_pos(fs: Seq<FieldSpec>, k: PlacementKind, i: int)
    requires
        0 <= i < fs.len(),
        fs[i].placement.kind() == k,
    ensures
        count_kind(fs, k) >= 1,
        count_kind(fs.remove(i), k) + 1 == count_kind(fs, k),
    decreases fs.len(),
{
    if i < fs.len() - 1 {
        lemma_count_kind_pos(fs.drop_last(), k, i);
        assert(fs.remove(i).drop_last() =~= fs.drop_last().remove(i));
        assert(fs.remove(i).last() == fs.last());
    } else {
        assert(fs.remove(i) =~= fs.drop_last());
    }
}

proof fn lemma_count_kind_two(fs: Seq<FieldSpec>, k: PlacementKind, i: int, j: int)
    requires
        0 <= i < fs.len(),
        0 <= j < fs.len(),
        i != j,
        fs[i].placement.kind() == k,
        fs[j].placement.kind() == k,
    ensures
        count_kind(fs, k) >= 2,
{
    lemma_count_kind_pos(fs, k, i);
    let j2 = if j < i { j } else { j - 1 };
    assert(fs.remove(i)[j2] == fs[j]);
    lemma_count_kind_pos(fs.remove(i), k, j2);
}

proof fn lemma_missing_nonempty(ts: Seq<SegmentView>, fs: Seq<FieldSpec>, i: int)
    requires
        0 <= i < ts.len(),
        ts[i] is Var,
        !has_path_field(fs, ts[i]->Var_0),
    ensures
        missing_path_errors(ts, fs).len() > 0,
    decreases ts.len(),
{
    if i < ts.len() - 1 {
        lemma_missing_nonempty(ts.drop_last(), fs, i);
        lemma_missing_grows(ts, fs);
    }
}

proof fn lemma_missing_grows(ts: Seq<SegmentView>, fs: Seq<FieldSpec>)
    requires
        ts.len() > 0,
    ensures
        missing_path_errors(ts, fs).len() >= missing_path_errors(ts.drop_last(), fs).len(),
{
}

pub proof fn lemma_unmatched_nonempty(ts: Seq<SegmentView>, fs: Seq<FieldSpec>, i: int)
    requires
        0 <= i < fs.len(),
        fs[i].placement is Path,
        !has_var(ts, fs[i].name@),
    ensures
        unmatched_path_errors(ts, fs).len() > 0,
    decreases fs.len(),
{
    if i < fs.len() - 1 {
        lemma_unmatched_nonempty(ts, fs.drop_last(), i);
    }
}

proof fn lemma_first_match_some(fs: Seq<FieldSpec>, r: Rule)
    ensures
        first_match(fs, r) >= 0 ==> first_match(fs, r) < fs.len() && obeys(fs[first_match(fs, r)], r),
        first_match(fs, r) >= -1,
    decreases fs.len(),
{
    if fs.len() > 0 {
        let p = fs.drop_last();
        lemma_first_match_some(p, r);
        if first_match(p, r) >= 0 {
            assert(p[first_match(p, r)] == fs[first_match(p, r)]);
        }
    }
}

proof fn lemma_first_match(fs: Seq<FieldSpec>, r: Rule, i: int)
    requires
        0 <= i < fs.len(),
        obeys(fs[i], r),
    ensures
        0 <= first_match(fs, r) <= i,
        obeys(fs[first_match(fs, r)], r),
    decreases fs.len(),
{
    let p = fs.drop_last();
    lemma_first_match_some(fs, r);
    lemma_first_match_some(p, r);
    if i < fs.len() - 1 {
        assert(p[i] == fs[i]);
        lemma_first_match(p, r, i);
    }
}

proof fn lemma_second_match_some(fs: Seq<FieldSpec>, r: Rule)
    ensures
        second_match(fs, r) >= 0 ==> second_match(fs, r) < fs.len() && obeys(fs[second_match(fs, r)], r)
            && 0 <= first_match(fs, r) < second_match(fs, r),
    decreases fs.len(),
{
    if fs.len() > 0 {
        let p = fs.drop_last();
        lemma_second_match_some(p, r);
        lemma_first_match_some(p, r);
        if second_match(p, r) >= 0 {
            assert(p[second_match(p, r)] == fs[second_match(p, r)]);
        }
    }
}

proof fn lemma_second_match(fs: Seq<FieldSpec>, r: Rule, i: int, j: int)
    requires
        0 <= i < j < fs.len(),
        obeys(fs[i], r),
        obeys(fs[j], r),
    ensures
        second_match(fs, r) >= 0,
    decreases fs.len(),
{
    let p = fs.drop_last();
    assert(p[i] == fs[i]);
    if j < fs.len() - 1 {
        assert(p[j] == fs[j]);
        lemma_second_match(p, r, i, j);
    } else {
        lemma_first_match(p, r, i);
    }
}

/// A field set of an endpoint that holds both a newtype body field and a body field is
/// rejected, and its first fault names the first newtype body field and the first body field.
pub proof fn law_newtype_excludes_body(
    path: Seq<char>,
    req: Seq<FieldSpec>,
    resp: Seq<FieldSpec>,
    response: bool,
    i: int,
    j: int,
)
    requires
        0 <= i < (if response { resp } else { req }).len(),
        0 <= j < (if response { resp } else { req }).len(),
        (if response { resp } else { req })[i].placement is NewtypeBody,
        (if response { resp } else { req })[j].placement is Body,
    ensures
        api_errors(path, req, resp).len() > 0,
        ({
            let fs = if response { resp } else { req };
            let a = first_match(fs, Rule::Newtype);
            let b = first_match(fs, Rule::Body);
            &&& 0 <= a < fs.len() && (fs[a].placement is NewtypeBody || fs[a].placement is RawNewtypeBody)
            &&& 0 <= b < fs.len() && fs[b].placement is Body
            &&& field_set_errors(fs, response)[0] == SchemaError::NewtypeWithBody(fs[a].index, fs[b].index)
        }),
{
    let fs = if response { resp } else { req };
    lemma_count_kind_pos(fs, PlacementKind::NewtypeBody, i);
    lemma_count_kind_pos(fs, PlacementKind::Body, j);
    lemma_first_match(fs, Rule::Newtype, i);
    lemma_first_match(fs, Rule::Body, j);
    assert(field_set_errors(fs, response).len() > 0);
}

/// A field set of an endpoint that holds both a query map field and a query field is rejected,
/// with a fault that names the first query map field and the first query field.
pub proof fn law_query_map_excludes_query(
    path: Seq<char>,
    req: Seq<FieldSpec>,
    resp: Seq<FieldSpec>,
    response: bool,
    i: int,
    j: int,
)
    requires
        0 <= i < (if response { resp } else { req }).len(),
        0 <= j < (if response { resp } else { req }).len(),
        (if response { resp } else { req })[i].placement is QueryMap,
        (if response { resp } else { req })[j].placement is Query,
    ensures
        api_errors(path, req, resp).len() > 0,
        ({
            let fs = if response { resp } else { req };
            let a = first_match(fs, Rule::QueryMap);
            let b = first_match(fs, Rule::Query);
            &&& 0 <= a < fs.len() && fs[a].placement is QueryMap
            &&& 0 <= b < fs.len() && fs[b].placement is Query
            &&& field_set_errors(fs, response).contains(SchemaError::QueryMapWithQuery(fs[a].index, fs[b].index))
        }),
{
    let fs = if response { resp } else { req };
    lemma_count_kind_pos(fs, PlacementKind::QueryMap, i);
    lemma_count_kind_pos(fs, PlacementKind::Query, j);
    lemma_first_match(fs, Rule::QueryMap, i);
    lemma_first_match(fs, Rule::Query, j);
    let body = count_kind(fs, PlacementKind::Body);
    let newtype = newtype_count(fs);
    let query_map = count_kind(fs, PlacementKind::QueryMap);
    let first = |r: Rule| declared(fs, first_match(fs, r));
    let second = |r: Rule| declared(fs, second_match(fs, r));
    let e1 = push_if(Seq::empty(), newtype > 0 && body > 0, SchemaError::NewtypeWithBody(first(Rule::Newtype), first(Rule::Body)));
    let e2 = push_if(e1, newtype > 1, SchemaError::MultipleNewtypeBodies(first(Rule::Newtype), second(Rule::Newtype)));
    let e3 = push_if(e2, query_map > 1, SchemaError::MultipleQueryMaps(first(Rule::QueryMap), second(Rule::QueryMap)));
    let k = e3.len() as int;
    assert(field_set_errors(fs, response)[k] == SchemaError::QueryMapWithQuery(
        fs[first_match(fs, Rule::QueryMap)].index,
        fs[first_match(fs, Rule::Query)].index,
    ));
}

/// A field set of an endpoint that holds two raw body fields is rejected, with a fault that
/// names the first two newtype or raw body fields.
pub proof fn law_single_raw_body(
    path: Seq<char>,
    req: Seq<FieldSpec>,
    resp: Seq<FieldSpec>,
    response: bool,
    i: int,
    j: int,
)
    requires
        0 <= i < (if response { resp } else { req }).len(),
        0 <= j < (if response { resp } else { req }).len(),
        i != j,
        (if response { resp } else { req })[i].placement is RawNewtypeBody,
        (if response { resp } else { req })[j].placement is RawNewtypeBody,
    ensures
        api_errors(path, req, resp).len() > 0,
        ({
            let fs = if response { resp } else { req };
            let a = first_match(fs, Rule::Newtype);
            let b = second_match(fs, Rule::Newtype);
            &&& 0 <= a < b < fs.len()
            &&& fs[a].placement is NewtypeBody || fs[a].placement is RawNewtypeBody
            &&& fs[b].placement is NewtypeBody || fs[b].placement is RawNewtypeBody
            &&& field_set_errors(fs, response).contains(SchemaError::MultipleNewtypeBodies(fs[a].index, fs[b].index))
        }),
{
    let fs = if response { resp } else { req };
    lemma_count_kind_two(fs, PlacementKind::RawNewtypeBody, i, j);
    assert(field_set_errors(fs, response).len() > 0);
    if i < j {
        lemma_second_match(fs, Rule::Newtype, i, j);
    } else {
        lemma_second_match(fs, Rule::Newtype, j, i);
    }
    lemma_second_match_some(fs, Rule::Newtype);
    lemma_first_match_some(fs, Rule::Newtype);
    let body = count_kind(fs, PlacementKind::Body);
    let newtype = newtype_count(fs);
    let first = |r: Rule| declared(fs, first_match(fs, r));
    let e1 = push_if(Seq::empty(), newtype > 0 && body > 0, SchemaError::NewtypeWithBody(first(Rule::Newtype), first(Rule::Body)));
    let k = e1.len() as int;
    let a = first_match(fs, Rule::Newtype);
    let b = second_match(fs, Rule::Newtype);
    assert(newtype > 1);
    assert(0 <= a < b < fs.len());
    assert(obeys(fs[a], Rule::Newtype) && obeys(fs[b], Rule::Newtype));
    assert(field_set_errors(fs, response)[k] == SchemaError::MultipleNewtypeBodies(fs[a].index, fs[b].index));
    assert(field_set_errors(fs, response).contains(SchemaError::MultipleNewtypeBodies(fs[a].index, fs[b].index)));
}

/// A template variable with no request path field of its name is rejected.
pub proof fn law_variable_needs_path_field(
    path: Seq<char>,
    req: Seq<FieldSpec>,
    resp: Seq<FieldSpec>,
    name: Seq<char>,
)
    requires
        has_var(template_spec(path), name),
        !has_path_field(req, name),
    ensures
        api_errors(path, req, resp).len() > 0,
{
    let ts = template_spec(path);
    let i = choose|i: int| 0 <= i < ts.len() && #[trigger] ts[i] == SegmentView::Var(name);
    lemma_missing_nonempty(ts, req, i);
}

/// A request path field with no template variable of its name is rejected.
pub proof fn law_path_field_needs_variable(
    path: Seq<char>,
    req: Seq<FieldSpec>,
    resp: Seq<FieldSpec>,
    i: int,
)
    requires
        0 <= i < req.len(),
        req[i].placement is Path,
        !has_var(template_spec(path), req[i].name@),
    ensures
        api_errors(path, req, resp).len() > 0,
{
    lemma_unmatched_nonempty(template_spec(path), req, i);
}

/// The value of a metadata entry as written.
pub enum MetaValue {
    Text(String),
    Flag(bool),
}

/// One `key: value` entry of the metadata block.
pub struct MetaEntry {
    pub key: String,
    pub value: MetaValue,
}

/// The method that a name written in upper case denotes.
pub open spec fn method_named(s: Seq<char>) -> Option<Method> {
    if s == "GET"@ {
        Some(Method::Get)
    } else if s == "POST"@ {
        Some(Method::Post)
    } else if s == "PUT"@ {
        Some(Method::Put)
    } else if s == "DELETE"@ {
        Some(Method::Delete)
    } else if s == "HEAD"@ {
        Some(Method::Head)
    } else if s == "OPTIONS"@ {
        Some(Method::Options)
    } else if s == "PATCH"@ {
        Some(Method::Patch)
    } else if s == "CONNECT"@ {
        Some(Method::Connect)
    } else if s == "TRACE"@ {
        Some(Method::Trace)
    } else {
        None
    }
}

/// Reads a method name.
pub fn parse_method(s: &str) -> (r: Option<Method>)
    ensures
        r == method_named(s@),
{
    if same_text(s, "GET") {
        Some(Method::Get)
    } else if same_text(s, "POST") {
        Some(Method::Post)
    } else if same_text(s, "PUT") {
        Some(Method::Put)
    } else if same_text(s, "DELETE") {
        Some(Method::Delete)
    } else if same_text(s, "HEAD") {
        Some(Method::Head)
    } else if same_text(s, "OPTIONS") {
        Some(Method::Options)
    } else if same_text(s, "PATCH") {
        Some(Method::Patch)
    } else if same_text(s, "CONNECT") {
        Some(Method::Connect)
    } else if same_text(s, "TRACE") {
        Some(Method::Trace)
    } else {
        None
    }
}

/// The position of the first entry with the given key, or -1.
pub open spec fn find_entry(es: Seq<MetaEntry>, key: Seq<char>) -> int
    decreases es.len(),
{
    if es.len() == 0 {
        -1
    } else {
        let p = find_entry(es.drop_last(), key);
        if p >= 0 {
            p
        } else if es.last().key@ == key {
            es.len() - 1
        } else {
            -1
        }
    }
}

/// The text of the first entry with the given key, where it is text.
pub open spec fn meta_text(es: Seq<MetaEntry>, key: Seq<char>) -> Option<Seq<char>> {
    let i = find_entry(es, key);
    if i >= 0 {
        match es[i].value {
            MetaValue::Text(t) => Some(t@),
            MetaValue::Flag(_) => None,
        }
    } else {
        None
    }
}

/// The flag of the first entry with the given key, where it is a flag.
pub open spec fn meta_flag(es: Seq<MetaEntry>, key: Seq<char>) -> Option<bool> {
    let i = find_entry(es, key);
    if i >= 0 {
        match es[i].value {
            MetaValue::Flag(b) => Some(b),
            MetaValue::Text(_) => None,
        }
    } else {
        None
    }
}

/// Every entry that metadata needs is there, with a value of its kind and a known method.
pub open spec fn metadata_complete(es: Seq<MetaEntry>) -> bool {
    &&& meta_text(es, "description"@) is Some
    &&& meta_text(es, "method"@) is Some
    &&& method_named(meta_text(es, "method"@)->0) is Some
    &&& meta_text(es, "name"@) is Some
    &&& meta_text(es, "path"@) is Some
    &&& meta_flag(es, "rate_limited"@) is Some
    &&& meta_flag(es, "requires_authentication"@) is Some
}

proof fn lemma_find_entry_prefix(es: Seq<MetaEntry>, key: Seq<char>, k: int)
    requires
        0 <= k <= es.len(),
        find_entry(es.take(k), key) >= 0,
    ensures
        find_entry(es, key) == find_entry(es.take(k), key),
    decreases es.len() - k,
{
    if k < es.len() {
        assert(es.take(k + 1).drop_last() =~= es.take(k));
        lemma_find_entry_prefix(es, key, k + 1);
    } else {
        assert(es.take(k) =~= es);
    }
}

/// The position of the first entry with the given key.
pub fn entry_index(es: &Vec<MetaEntry>, key: &str) -> (r: Option<usize>)
    ensures
        match r {
            Some(i) => find_entry(es@, key@) == i && i < es@.len(),
            None => find_entry(es@, key@) == -1,
        },
{
    let mut i: usize = 0;
    while i < es.len()
        invariant
            i <= es@.len(),
            find_entry(es@.take(i as int), key@) == -1,
        decreases es.len() - i,
    {
        assert(es@.take(i + 1).drop_last() =~= es@.take(i as int));
        if same_text(es[i].key.as_str(), key) {
            proof {
                lemma_find_entry_prefix(es@, key@, i + 1);
            }
            return Some(i);
        }
        i = i + 1;
    }
    assert(es@.take(i as int) =~= es@);
    None
}

fn entry_text(es: &Vec<MetaEntry>, key: &str) -> (r: Option<String>)
    ensures
        match r {
            Some(t) => meta_text(es@, key@) == Some(t@),
            None => meta_text(es@, key@) is None,
        },
{
    match entry_index(es, key) {
        Some(i) => match &es[i].value {
            MetaValue::Text(t) => Some(t.clone()),
            MetaValue::Flag(_) => None,
        },
        None => None,
    }
}

fn entry_flag(es: &Vec<MetaEntry>, key: &str) -> (r: Option<bool>)
    ensures
        r == meta_flag(es@, key@),
{
    match entry_index(es, key) {
        Some(i) => match &es[i].value {
            MetaValue::Flag(b) => Some(*b),
            MetaValue::Text(_) => None,
        },
        None => None,
    }
}

/// Reads the metadata block from its entries; where a key occurs twice the first entry counts.
/// Fails where an entry is missing, has a value of the wrong kind, or names an unknown method.
pub fn metadata_from_entries(es: &Vec<MetaEntry>) -> (r: Result<Metadata, SchemaError>)
    ensures
        r is Ok <==> metadata_complete(es@),
        r matches Ok(m) ==> {
            &&& Some(m.description@) == meta_text(es@, "description"@)
            &&& Some(m.method) == method_named(meta_text(es@, "method"@)->0)
            &&& Some(m.name@) == meta_text(es@, "name"@)
            &&& Some(m.path@) == meta_text(es@, "path"@)
            &&& Some(m.rate_limited) == meta_flag(es@, "rate_limited"@)
            &&& Some(m.requires_authentication) == meta_flag(es@, "requires_authentication"@)
        },
        r matches Err(e) ==> e is InvalidMetadata,
{
    let description = match entry_text(es, "description") {
        Some(t) => t,
        None => return Err(SchemaError::InvalidMetadata),
    };
    let method_text = match entry_text(es, "method") {
        Some(t) => t,
        None => return Err(SchemaError::InvalidMetadata),
    };
    let method = match parse_method(method_text.as_str()) {
        Some(m) => m,
        None => return Err(SchemaError::InvalidMetadata),
    };
    let name = match entry_text(es, "name") {
        Some(t) => t,
        None => return Err(SchemaError::InvalidMetadata),
    };
    let path = match entry_text(es, "path") {
        Some(t) => t,
        None => return Err(SchemaError::InvalidMetadata),
    };
    let rate_limited = match entry_flag(es, "rate_limited") {
        Some(b) => b,
        None => return Err(SchemaError::InvalidMetadata),
    };
    let requires_authentication = match entry_flag(es, "requires_authentication") {
        Some(b) => b,
        None => return Err(SchemaError::InvalidMetadata),
    };
    Ok(Metadata { description, method, name, path, rate_limited, requires_authentication })
}

} // verus!
