//! Field placements, the classification of a field attribute, and the checks over a
//! whole field set.

use vstd::prelude::*;

verus! {

/// Compares two strings character by character.
pub fn same_text(a: &str, b: &str) -> (r: bool)
    ensures
        r == (a@ == b@),
{
    let n = a.unicode_len();
    if n != b.unicode_len() {
        return false;
    }
    let mut i: usize = 0;
    while i < n
        invariant
            n == a@.len(),
            n == b@.len(),
            i <= n,
            a@.take(i as int) == b@.take(i as int),
        decreases n - i,
    {
        if a.get_char(i) != b.get_char(i) {
            assert(a@[i as int] != b@[i as int]);
            return false;
        }
        assert(a@.take(i + 1) =~= a@.take(i as int).push(a@[i as int]));
        assert(b@.take(i + 1) =~= b@.take(i as int).push(b@[i as int]));
        i = i + 1;
    }
    assert(a@ =~= a@.take(n as int));
    assert(b@ =~= b@.take(n as int));
    true
}


/// Where a field's value is carried on the wire.
pub enum Placement {
    /// A member of the JSON object body (the default).
    Body,
    /// An HTTP header with the given name.
    Header(String),
    /// A variable of the path template.
    Path,
    /// One key/value pair of the query string.
    Query,
    /// The whole query string, as a sequence of string pairs.
    QueryMap,
    /// The whole body is this field's JSON value.
    NewtypeBody,
    /// The whole body is this field's value, as opaque bytes.
    RawNewtypeBody,
}

/// A placement without its parameter.
#[derive(Clone, Copy, PartialEq, Eq, Structural, Debug)]
pub enum PlacementKind {
    Body,
    Header,
    Path,
    Query,
    QueryMap,
    NewtypeBody,
    RawNewtypeBody,
}

/// What the declared type of a field is known to be.
#[derive(Clone, Copy, PartialEq, Eq, Structural, Debug)]
pub enum TypeShape {
    /// An opaque byte sequence.
    Bytes,
    /// A collection that yields string pairs.
    StringPairs,
    /// Anything else.
    Other,
}

/// A field attribute as written: a name and its arguments.
pub struct RawAttr {
    pub name: String,
    pub args: Vec<String>,
}

/// A field as declared, before classification.
pub struct RawField {
    pub name: String,
    pub shape: TypeShape,
    pub attr: Option<RawAttr>,
}

/// A classified field.
pub struct FieldSpec {
    /// The field's position among the declared fields of its block.
    pub index: usize,
    pub name: String,
    pub shape: TypeShape,
    pub placement: Placement,
}

/// A fault in an endpoint description.
pub enum SchemaError {
    /// The attribute's name is not a placement.
    UnknownAttribute(String),
    /// The attribute has the wrong number of arguments.
    WrongArity(String),
    /// A newtype body field stands beside a body field: (the first newtype or raw body
    /// field, the first body field), by declared position.
    NewtypeWithBody(usize, usize),
    /// More than one newtype or raw body field: the first two, by declared position.
    MultipleNewtypeBodies(usize, usize),
    /// More than one query map field: the first two, by declared position.
    MultipleQueryMaps(usize, usize),
    /// A query map field stands beside a query field: (the first query map field, the first
    /// query field), by declared position.
    QueryMapWithQuery(usize, usize),
    /// The first query map field whose type does not yield string pairs.
    QueryMapType(usize),
    /// The first raw body field whose type is not a byte sequence.
    RawBodyType(usize),
    /// The first response field placed in the path or the query string.
    ResponsePlacement(usize),
    /// A template variable, by its segment's position, without a path field of that name.
    MissingPathField(usize),
    /// A path field, by its declared position, without a template variable of that name.
    UnmatchedPathField(usize),
    /// A field, by declared position, whose name an earlier field of the block has.
    DuplicateName(usize),
    /// A header field, by declared position, whose header name an earlier header field of
    /// the block has.
    DuplicateHeader(usize),
    /// The metadata block lacks an entry, holds one of the wrong kind, or names an unknown
    /// method.
    InvalidMetadata,
}

impl Placement {
    pub open spec fn kind(&self) -> PlacementKind {
        match self {
            Placement::Body => PlacementKind::Body,
            Placement::Header(_) => PlacementKind::Header,
            Placement::Path => PlacementKind::Path,
            Placement::Query => PlacementKind::Query,
            Placement::QueryMap => PlacementKind::QueryMap,
            Placement::NewtypeBody => PlacementKind::NewtypeBody,
            Placement::RawNewtypeBody => PlacementKind::RawNewtypeBody,
        }
    }

    /// The kind of this placement.
    pub fn get_kind(&self) -> (r: PlacementKind)
        ensures
            r == self.kind(),
    {
        match self {
            Placement::Body => PlacementKind::Body,
            Placement::Header(_) => PlacementKind::Header,
            Placement::Path => PlacementKind::Path,
            Placement::Query => PlacementKind::Query,
            Placement::QueryMap => PlacementKind::QueryMap,
            Placement::NewtypeBody => PlacementKind::NewtypeBody,
            Placement::RawNewtypeBody => PlacementKind::RawNewtypeBody,
        }
    }
}

/// The placement that an attribute names with no argument, if any.
pub open spec fn bare_placement(name: Seq<char>) -> Option<Placement> {
    if name == "body"@ {
        Some(Placement::NewtypeBody)
    } else if name == "raw_body"@ {
        Some(Placement::RawNewtypeBody)
    } else if name == "path"@ {
        Some(Placement::Path)
    } else if name == "query"@ {
        Some(Placement::Query)
    } else if name == "query_map"@ {
        Some(Placement::QueryMap)
    } else {
        None
    }
}

/// The outcome of classifying a field with the given attribute.
pub open spec fn classify_spec(attr: Option<RawAttr>) -> Result<Placement, SchemaError> {
    match attr {
        None => Ok(Placement::Body),
        Some(a) => if a.name@ == "header"@ {
            if a.args@.len() == 1 {
                Ok(Placement::Header(a.args@[0]))
            } else {
                Err(SchemaError::WrongArity(a.name))
            }
        } else if bare_placement(a.name@) is Some {
            if a.args@.len() == 0 {
                Ok(bare_placement(a.name@)->0)
            } else {
                Err(SchemaError::WrongArity(a.name))
            }
        } else {
            Err(SchemaError::UnknownAttribute(a.name))
        },
    }
}

/// Maps a field's attribute (or its absence) to a placement.
pub fn classify_attribute(attr: Option<RawAttr>) -> (r: Result<Placement, SchemaError>)
    ensures
        r == classify_spec(attr),
{
    match attr {
        None => Ok(Placement::Body),
        Some(a) => {
            let RawAttr { name, args } = a;
            let bare = if same_text(name.as_str(), "body") {
                Some(Placement::NewtypeBody)
            } else if same_text(name.as_str(), "raw_body") {
                Some(Placement::RawNewtypeBody)
            } else if same_text(name.as_str(), "path") {
                Some(Placement::Path)
            } else if same_text(name.as_str(), "query") {
                Some(Placement::Query)
            } else if same_text(name.as_str(), "query_map") {
                Some(Placement::QueryMap)
            } else {
                None
            };
            if same_text(name.as_str(), "header") {
                proof {
                    reveal_strlit("header");
                    reveal_strlit("body");
                    reveal_strlit("raw_body");
                    reveal_strlit("path");
                    reveal_strlit("query");
                    reveal_strlit("query_map");
                }
                if args.len() == 1 {
                    let mut args = args;
                    let h = args.pop().unwrap();
                    Ok(Placement::Header(h))
                } else {
                    Err(SchemaError::WrongArity(name))
                }
            } else {
                match bare {
                    Some(p) => if args.len() == 0 {
                        Ok(p)
                    } else {
                        Err(SchemaError::WrongArity(name))
                    },
                    None => Err(SchemaError::UnknownAttribute(name)),
                }
            }
        },
    }
}

/// Classifies each field in order; the faults are gathered, not cut short at the first.
pub open spec fn classify_all(rs: Seq<RawField>) -> (Seq<FieldSpec>, Seq<SchemaError>)
    decreases rs.len(),
{
    if rs.len() == 0 {
        (Seq::empty(), Seq::empty())
    } else {
        let prev = classify_all(rs.drop_last());
        let f = rs.last();
        match classify_spec(f.attr) {
            Ok(p) => (
                prev.0.push(
                    FieldSpec { index: (rs.len() - 1) as usize, name: f.name, shape: f.shape, placement: p },
                ),
                prev.1,
            ),
            Err(e) => (prev.0, prev.1.push(e)),
        }
    }
}

/// Classifies every declared field: the fields whose attribute is sound, in order, and a
/// fault for each of the others.
pub fn classify_fields(raws: Vec<RawField>) -> (r: (Vec<FieldSpec>, Vec<SchemaError>))
    ensures
        (r.0@, r.1@) == classify_all(raws@),
{
    let ghost orig = raws@;
    let _n = raws.len();
    let mut rest = raws;
    let mut specs: Vec<FieldSpec> = Vec::new();
    let mut errs: Vec<SchemaError> = Vec::new();
    let mut i: usize = 0;
    while rest.len() > 0
        invariant
            i <= orig.len(),
            rest@ == orig.skip(i as int),
            i + rest@.len() == orig.len(),
            orig.len() <= usize::MAX,
            classify_all(orig.take(i as int)) == (specs@, errs@),
        decreases rest.len(),
    {
        let f = rest.remove(0);
        assert(orig.take(i + 1).drop_last() =~= orig.take(i as int));
        assert(orig.take(i + 1).last() == f);
        let RawField { name, shape, attr } = f;
        match classify_attribute(attr) {
            Ok(p) => specs.push(FieldSpec { index: i, name, shape, placement: p }),
            Err(e) => errs.push(e),
        }
        assert(rest@ =~= orig.skip(i + 1));
        i = i + 1;
    }
    assert(orig.take(i as int) =~= orig);
    (specs, errs)
}

/// The number of fields with a placement of the given kind.
pub open spec fn count_kind(fs: Seq<FieldSpec>, k: PlacementKind) -> nat
    decreases fs.len(),
{
    if fs.len() == 0 {
        0
    } else {
        count_kind(fs.drop_last(), k) + if fs.last().placement.kind() == k {
            1nat
        } else {
            0nat
        }
    }
}

/// The number of fields with a placement of the given kind whose type is not of the given shape.
pub open spec fn count_misshapen(fs: Seq<FieldSpec>, k: PlacementKind, shape: TypeShape) -> nat
    decreases fs.len(),
{
    if fs.len() == 0 {
        0
    } else {
        count_misshapen(fs.drop_last(), k, shape) + if fs.last().placement.kind() == k
            && fs.last().shape != shape {
            1nat
        } else {
            0nat
        }
    }
}

pub open spec fn newtype_count(fs: Seq<FieldSpec>) -> nat {
    count_kind(fs, PlacementKind::NewtypeBody) + count_kind(fs, PlacementKind::RawNewtypeBody)
}

pub open spec fn push_if(es: Seq<SchemaError>, c: bool, e: SchemaError) -> Seq<SchemaError> {
    if c {
        es.push(e)
    } else {
        es
    }
}

/// A class of fields that the rules over a field set speak of.
#[derive(Clone, Copy, PartialEq, Eq, Structural, Debug)]
pub enum Rule {
    Body,
    /// Newtype or raw body fields.
    Newtype,
    QueryMap,
    Query,
    /// Query map fields whose type does not yield string pairs.
    BadMap,
    /// Raw body fields whose type is not a byte sequence.
    BadRaw,
    /// Path, query and query map fields.
    Misplaced,
}

pub open spec fn obeys(f: FieldSpec, r: Rule) -> bool {
    let k = f.placement.kind();
    match r {
        Rule::Body => k == PlacementKind::Body,
        Rule::Newtype => k == PlacementKind::NewtypeBody || k == PlacementKind::RawNewtypeBody,
        Rule::QueryMap => k == PlacementKind::QueryMap,
        Rule::Query => k == PlacementKind::Query,
        Rule::BadMap => k == PlacementKind::QueryMap && f.shape != TypeShape::StringPairs,
        Rule::BadRaw => k == PlacementKind::RawNewtypeBody && f.shape != TypeShape::Bytes,
        Rule::Misplaced => k == PlacementKind::Path || k == PlacementKind::Query || k
            == PlacementKind::QueryMap,
    }
}

/// The position of the first field of the class, or -1.
pub open spec fn first_match(fs: Seq<FieldSpec>, r: Rule) -> int
    decreases fs.len(),
{
    if fs.len() == 0 {
        -1
    } else {
        let p = first_match(fs.drop_last(), r);
        if p >= 0 {
            p
        } else if obeys(fs.last(), r) {
            fs.len() - 1
        } else {
            -1
        }
    }
}

/// The position of the second field of the class, or -1.
pub open spec fn second_match(fs: Seq<FieldSpec>, r: Rule) -> int
    decreases fs.len(),
{
    if fs.len() == 0 {
        -1
    } else {
        let p = second_match(fs.drop_last(), r);
        if p >= 0 {
            p
        } else if obeys(fs.last(), r) && first_match(fs.drop_last(), r) >= 0 {
            fs.len() - 1
        } else {
            -1
        }
    }
}

/// The declared position of the field at `i`.
pub open spec fn declared(fs: Seq<FieldSpec>, i: int) -> usize {
    if 0 <= i < fs.len() {
        fs[i].index
    } else {
        0
    }
}

/// Every fault of a classified field set, one for each violated rule, in a fixed order, each
/// naming the declared positions of the fields in conflict.
pub open spec fn field_set_errors(fs: Seq<FieldSpec>, response: bool) -> Seq<SchemaError> {
    let body = count_kind(fs, PlacementKind::Body);
    let newtype = newtype_count(fs);
    let query = count_kind(fs, PlacementKind::Query);
    let query_map = count_kind(fs, PlacementKind::QueryMap);
    let path = count_kind(fs, PlacementKind::Path);
    let first = |r: Rule| declared(fs, first_match(fs, r));
    let second = |r: Rule| declared(fs, second_match(fs, r));
    let e1 = push_if(
        Seq::empty(),
        newtype > 0 && body > 0,
        SchemaError::NewtypeWithBody(first(Rule::Newtype), first(Rule::Body)),
    );
    let e2 = push_if(
        e1,
        newtype > 1,
        SchemaError::MultipleNewtypeBodies(first(Rule::Newtype), second(Rule::Newtype)),
    );
    let e3 = push_if(
        e2,
        query_map > 1,
        SchemaError::MultipleQueryMaps(first(Rule::QueryMap), second(Rule::QueryMap)),
    );
    let e4 = push_if(
        e3,
        query_map > 0 && query > 0,
        SchemaError::QueryMapWithQuery(first(Rule::QueryMap), first(Rule::Query)),
    );
    let e5 = push_if(
        e4,
        count_misshapen(fs, PlacementKind::QueryMap, TypeShape::StringPairs) > 0,
        SchemaError::QueryMapType(first(Rule::BadMap)),
    );
    let e6 = push_if(
        e5,
        count_misshapen(fs, PlacementKind::RawNewtypeBody, TypeShape::Bytes) > 0,
        SchemaError::RawBodyType(first(Rule::BadRaw)),
    );
    push_if(
        e6,
        response && path + query + query_map > 0,
        SchemaError::ResponsePlacement(first(Rule::Misplaced)),
    )
}

/// Whether a field belongs to the class.
pub fn rule_holds(f: &FieldSpec, r: Rule) -> (b: bool)
    ensures
        b == obeys(*f, r),
{
    let k = f.placement.get_kind();
    match r {
        Rule::Body => k == PlacementKind::Body,
        Rule::Newtype => k == PlacementKind::NewtypeBody || k == PlacementKind::RawNewtypeBody,
        Rule::QueryMap => k == PlacementKind::QueryMap,
        Rule::Query => k == PlacementKind::Query,
        Rule::BadMap => k == PlacementKind::QueryMap && f.shape != TypeShape::StringPairs,
        Rule::BadRaw => k == PlacementKind::RawNewtypeBody && f.shape != TypeShape::Bytes,
        Rule::Misplaced => k == PlacementKind::Path || k == PlacementKind::Query || k
            == PlacementKind::QueryMap,
    }
}

pub open spec fn opt_pos(o: Option<usize>) -> int {
    match o {
        Some(i) => i as int,
        None => -1,
    }
}

/// The declared positions of the first and the second field of the class, where there are.
pub fn find_matches(fs: &Vec<FieldSpec>, r: Rule) -> (res: (usize, usize))
    ensures
        res.0 == declared(fs@, first_match(fs@, r)),
        res.1 == declared(fs@, second_match(fs@, r)),
{
    let mut first: Option<usize> = None;
    let mut second: Option<usize> = None;
    let mut i: usize = 0;
    while i < fs.len()
        invariant
            i <= fs@.len(),
            opt_pos(first) == first_match(fs@.take(i as int), r),
            opt_pos(second) == second_match(fs@.take(i as int), r),
            first matches Some(j) ==> j < i,
            second matches Some(j) ==> j < i,
        decreases fs.len() - i,
    {
        assert(fs@.take(i + 1).drop_last() =~= fs@.take(i as int));
        assert(fs@.take(i + 1).last() == fs@[i as int]);
        if rule_holds(&fs[i], r) {
            if first.is_none() {
                first = Some(i);
            } else if second.is_none() {
                second = Some(i);
            }
        }
        i = i + 1;
    }
    assert(fs@.take(i as int) =~= fs@);
    let a = match first {
        Some(j) => fs[j].index,
        None => 0,
    };
    let b = match second {
        Some(j) => fs[j].index,
        None => 0,
    };
    (a, b)
}

/// How many fields of a set fall under each rule.
pub struct FieldCounts {
    pub body: usize,
    pub newtype: usize,
    pub raw: usize,
    pub path: usize,
    pub query: usize,
    pub query_map: usize,
    pub bad_map: usize,
    pub bad_raw: usize,
}

impl FieldCounts {
    pub open spec fn describes(&self, fs: Seq<FieldSpec>) -> bool {
        &&& self.body == count_kind(fs, PlacementKind::Body)
        &&& self.newtype == count_kind(fs, PlacementKind::NewtypeBody)
        &&& self.raw == count_kind(fs, PlacementKind::RawNewtypeBody)
        &&& self.path == count_kind(fs, PlacementKind::Path)
        &&& self.query == count_kind(fs, PlacementKind::Query)
        &&& self.query_map == count_kind(fs, PlacementKind::QueryMap)
        &&& self.bad_map == count_misshapen(fs, PlacementKind::QueryMap, TypeShape::StringPairs)
        &&& self.bad_raw == count_misshapen(fs, PlacementKind::RawNewtypeBody, TypeShape::Bytes)
        &&& self.body + self.newtype + self.raw + self.path + self.query + self.query_map <= fs.len()
    }
}

/// Counts the fields of a set under each rule.
pub fn count_fields(fs: &Vec<FieldSpec>) -> (c: FieldCounts)
    ensures
        c.describes(fs@),
{
    let mut c = FieldCounts {
        body: 0,
        newtype: 0,
        raw: 0,
        path: 0,
        query: 0,
        query_map: 0,
        bad_map: 0,
        bad_raw: 0,
    };
    let mut i: usize = 0;
    while i < fs.len()
        invariant
            i <= fs@.len(),
            c.describes(fs@.take(i as int)),
            c.bad_map <= i && c.bad_raw <= i,
        decreases fs.len() - i,
    {
        assert(fs@.take(i + 1).drop_last() =~= fs@.take(i as int));
        let f = &fs[i];
        let k = f.placement.get_kind();
        match k {
            PlacementKind::Body => c.body = c.body + 1,
            PlacementKind::Header => {},
            PlacementKind::Path => c.path = c.path + 1,
            PlacementKind::Query => c.query = c.query + 1,
            PlacementKind::QueryMap => {
                c.query_map = c.query_map + 1;
                if f.shape != TypeShape::StringPairs {
                    c.bad_map = c.bad_map + 1;
                }
            },
            PlacementKind::NewtypeBody => c.newtype = c.newtype + 1,
            PlacementKind::RawNewtypeBody => {
                c.raw = c.raw + 1;
                if f.shape != TypeShape::Bytes {
                    c.bad_raw = c.bad_raw + 1;
                }
            },
        }
        i = i + 1;
    }
    assert(fs@.take(i as int) =~= fs@);
    c
}

/// Checks the rules over a whole field set and reports every one that is broken.
pub fn check_field_set(fs: &Vec<FieldSpec>, response: bool) -> (r: Vec<SchemaError>)
    ensures
        r@ == field_set_errors(fs@, response),
{
    let c = count_fields(fs);
    let _n = fs.len();
    let body = c.body;
    let newtype = c.newtype;
    let raw = c.raw;
    let path = c.path;
    let query = c.query;
    let query_map = c.query_map;
    let bad_map = c.bad_map;
    let bad_raw = c.bad_raw;
    let (first_body, _) = find_matches(fs, Rule::Body);
    let (first_newtype, second_newtype) = find_matches(fs, Rule::Newtype);
    let (first_map, second_map) = find_matches(fs, Rule::QueryMap);
    let (first_query, _) = find_matches(fs, Rule::Query);
    let (first_bad_map, _) = find_matches(fs, Rule::BadMap);
    let (first_bad_raw, _) = find_matches(fs, Rule::BadRaw);
    let (first_misplaced, _) = find_matches(fs, Rule::Misplaced);
    let mut errs: Vec<SchemaError> = Vec::new();
    if newtype + raw > 0 && body > 0 {
        errs.push(SchemaError::NewtypeWithBody(first_newtype, first_body));
    }
    if newtype + raw > 1 {
        errs.push(SchemaError::MultipleNewtypeBodies(first_newtype, second_newtype));
    }
    if query_map > 1 {
        errs.push(SchemaError::MultipleQueryMaps(first_map, second_map));
    }
    if query_map > 0 && query > 0 {
        errs.push(SchemaError::QueryMapWithQuery(first_map, first_query));
    }
    if bad_map > 0 {
        errs.push(SchemaError::QueryMapType(first_bad_map));
    }
    if bad_raw > 0 {
        errs.push(SchemaError::RawBodyType(first_bad_raw));
    }
    if response && path + query + query_map > 0 {
        errs.push(SchemaError::ResponsePlacement(first_misplaced));
    }
    assert(errs@ =~= field_set_errors(fs@, response));
    errs
}

} // verus!
