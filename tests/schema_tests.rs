use ruma_api::api::{build_api, Metadata, Method, RawApi};
use ruma_api::schema::{
    check_field_set, classify_attribute, classify_fields, same_text, FieldSpec, Placement,
    RawAttr, RawField, SchemaError, TypeShape,
};
use ruma_api::template::{parse_template, split_text, Segment};

fn attr(name: &str, args: &[&str]) -> Option<RawAttr> {
    Some(RawAttr { name: name.to_string(), args: args.iter().map(|a| a.to_string()).collect() })
}

fn fields(list: Vec<(&str, TypeShape, Placement)>) -> Vec<FieldSpec> {
    list.into_iter()
        .enumerate()
        .map(|(index, (name, shape, placement))| FieldSpec { index, name: name.to_string(), shape, placement })
        .collect()
}

fn raw(name: &str, a: Option<RawAttr>) -> RawField {
    RawField { name: name.to_string(), shape: TypeShape::Other, attr: a }
}

fn metadata(path: &str) -> Metadata {
    Metadata {
        description: "Does something.".to_string(),
        method: Method::Get,
        name: "some_endpoint".to_string(),
        path: path.to_string(),
        rate_limited: false,
        requires_authentication: false,
    }
}

#[test]
fn same_text_compares() {
    assert!(same_text("query", "query"));
    assert!(!same_text("query", "query_map"));
    assert!(!same_text("path", "paTh"));
    assert!(same_text("", ""));
}

#[test]
fn no_attribute_is_body() {
    assert!(matches!(classify_attribute(None), Ok(Placement::Body)));
}

#[test]
fn attributes_classify() {
    assert!(matches!(classify_attribute(attr("body", &[])), Ok(Placement::NewtypeBody)));
    assert!(matches!(classify_attribute(attr("raw_body", &[])), Ok(Placement::RawNewtypeBody)));
    assert!(matches!(classify_attribute(attr("path", &[])), Ok(Placement::Path)));
    assert!(matches!(classify_attribute(attr("query", &[])), Ok(Placement::Query)));
    assert!(matches!(classify_attribute(attr("query_map", &[])), Ok(Placement::QueryMap)));
    match classify_attribute(attr("header", &["content-type"])) {
        Ok(Placement::Header(h)) => assert_eq!(h, "content-type"),
        _ => panic!("expected a header placement"),
    }
}

#[test]
fn malformed_attributes_fail() {
    assert!(matches!(classify_attribute(attr("bogus", &[])), Err(SchemaError::UnknownAttribute(_))));
    assert!(matches!(classify_attribute(attr("header", &[])), Err(SchemaError::WrongArity(_))));
    assert!(matches!(classify_attribute(attr("path", &["x"])), Err(SchemaError::WrongArity(_))));
}

#[test]
fn classify_fields_gathers_every_fault() {
    let (fs, errs) = classify_fields(vec![
        raw("a", None),
        raw("b", attr("nope", &[])),
        raw("c", attr("query", &[])),
        raw("d", attr("header", &["x", "y"])),
    ]);
    assert_eq!(fs.len(), 2);
    assert_eq!(fs[0].name, "a");
    assert_eq!(fs[1].name, "c");
    assert_eq!(fs[1].index, 2);
    assert_eq!(errs.len(), 2);
    assert!(matches!(errs[0], SchemaError::UnknownAttribute(_)));
    assert!(matches!(errs[1], SchemaError::WrongArity(_)));
}

#[test]
fn newtype_body_with_body_fails() {
    let fs = fields(vec![
        ("a", TypeShape::Other, Placement::NewtypeBody),
        ("b", TypeShape::Other, Placement::Body),
    ]);
    let errs = check_field_set(&fs, false);
    assert_eq!(errs.len(), 1);
    assert!(matches!(errs[0], SchemaError::NewtypeWithBody(0, 1)));
}

#[test]
fn two_raw_bodies_fail() {
    let fs = fields(vec![
        ("a", TypeShape::Bytes, Placement::RawNewtypeBody),
        ("b", TypeShape::Bytes, Placement::RawNewtypeBody),
    ]);
    let errs = check_field_set(&fs, false);
    assert_eq!(errs.len(), 1);
    assert!(matches!(errs[0], SchemaError::MultipleNewtypeBodies(0, 1)));
}

#[test]
fn query_map_with_query_fails() {
    let fs = fields(vec![
        ("a", TypeShape::StringPairs, Placement::QueryMap),
        ("b", TypeShape::Other, Placement::Query),
    ]);
    let errs = check_field_set(&fs, false);
    assert_eq!(errs.len(), 1);
    assert!(matches!(errs[0], SchemaError::QueryMapWithQuery(0, 1)));
}

#[test]
fn field_types_are_checked() {
    let fs = fields(vec![
        ("a", TypeShape::Other, Placement::QueryMap),
        ("b", TypeShape::StringPairs, Placement::QueryMap),
        ("c", TypeShape::Other, Placement::RawNewtypeBody),
    ]);
    let errs = check_field_set(&fs, false);
    assert_eq!(errs.len(), 3);
    assert!(matches!(errs[0], SchemaError::MultipleQueryMaps(0, 1)));
    assert!(matches!(errs[1], SchemaError::QueryMapType(0)));
    assert!(matches!(errs[2], SchemaError::RawBodyType(2)));
}

#[test]
fn response_path_fails() {
    let fs = fields(vec![("a", TypeShape::Other, Placement::Path)]);
    assert_eq!(check_field_set(&fs, false).len(), 0);
    let errs = check_field_set(&fs, true);
    assert_eq!(errs.len(), 1);
    assert!(matches!(errs[0], SchemaError::ResponsePlacement(0)));
}

#[test]
fn valid_field_set_passes() {
    let fs = fields(vec![
        ("a", TypeShape::Other, Placement::Body),
        ("b", TypeShape::Other, Placement::Query),
        ("c", TypeShape::Other, Placement::Header("x".to_string())),
        ("d", TypeShape::Other, Placement::Path),
    ]);
    assert_eq!(check_field_set(&fs, false).len(), 0);
}

#[test]
fn template_splits() {
    let ts = parse_template("/_matrix/some/endpoint/:baz");
    assert_eq!(ts.len(), 5);
    assert!(matches!(&ts[0], Segment::Literal(s) if s.is_empty()));
    assert!(matches!(&ts[1], Segment::Literal(s) if s == "_matrix"));
    assert!(matches!(&ts[4], Segment::Var(s) if s == "baz"));
    let pieces = split_text("a//b");
    assert_eq!(pieces, vec!["a".to_string(), String::new(), "b".to_string()]);
    assert_eq!(split_text(""), vec![String::new()]);
}

#[test]
fn template_variable_without_path_field_fails() {
    let raw_api = RawApi {
        metadata: metadata("/rooms/:id"),
        request: vec![raw("other", attr("query", &[]))],
        response: vec![],
    };
    match build_api(raw_api) {
        Err(errs) => {
            assert_eq!(errs.len(), 1);
            assert!(matches!(errs[0], SchemaError::MissingPathField(2)));
        },
        Ok(_) => panic!("a template variable without a path field must fail"),
    }
}

#[test]
fn path_field_without_variable_fails() {
    let raw_api = RawApi {
        metadata: metadata("/rooms"),
        request: vec![raw("id", attr("path", &[]))],
        response: vec![],
    };
    match build_api(raw_api) {
        Err(errs) => {
            assert_eq!(errs.len(), 1);
            assert!(matches!(errs[0], SchemaError::UnmatchedPathField(0)));
        },
        Ok(_) => panic!("a path field without a template variable must fail"),
    }
}

#[test]
fn build_batches_faults() {
    let raw_api = RawApi {
        metadata: metadata("/rooms/:id"),
        request: vec![raw("a", attr("body", &[])), raw("b", None), raw("c", attr("what", &[]))],
        response: vec![raw("d", attr("query", &[]))],
    };
    match build_api(raw_api) {
        Err(errs) => {
            assert_eq!(errs.len(), 4);
            assert!(matches!(errs[0], SchemaError::UnknownAttribute(_)));
            assert!(matches!(errs[1], SchemaError::NewtypeWithBody(0, 1)));
            assert!(matches!(errs[2], SchemaError::ResponsePlacement(0)));
            assert!(matches!(errs[3], SchemaError::MissingPathField(2)));
        },
        Ok(_) => panic!("expected faults"),
    }
}

#[test]
fn build_accepts_valid_endpoint() {
    let raw_api = RawApi {
        metadata: metadata("/_matrix/some/endpoint/:baz"),
        request: vec![
            raw("foo", None),
            raw("content_type", attr("header", &["content-type"])),
            raw("bar", attr("query", &[])),
            raw("baz", attr("path", &[])),
        ],
        response: vec![raw("content_type", attr("header", &["content-type"])), raw("value", None)],
    };
    let api = build_api(raw_api).ok().expect("valid endpoint");
    assert_eq!(api.template.len(), 5);
    assert_eq!(api.request_fields.len(), 4);
    assert_eq!(api.response_fields.len(), 2);
}
