use ruma_api::api::{build_api, Api, Metadata, Method, RawApi};
use ruma_api::codec::{header_value_ok, json_error};
use ruma_api::incoming::{
    assemble_incoming, derive_incoming, json_outcome, text_occurs, Decoded, IncomingType,
    IncomingValue, Outcome, OutgoingField, WrapError, WrapIncoming,
};
use ruma_api::json::object_text;
use ruma_api::path::{parse_path, render_path};
use ruma_api::schema::{RawAttr, RawField, TypeShape};
use ruma_api::wire::{
    request_from_wire, request_to_wire, DecodeFailure, response_from_wire, response_to_wire, FieldValue,
    FromHttpRequestError, FromHttpResponseError, IntoHttpError, WireBody, WireRequest,
    WireResponse,
};

fn attr(name: &str, args: &[&str]) -> Option<RawAttr> {
    Some(RawAttr { name: name.to_string(), args: args.iter().map(|a| a.to_string()).collect() })
}

fn raw(name: &str, shape: TypeShape, a: Option<RawAttr>) -> RawField {
    RawField { name: name.to_string(), shape, attr: a }
}

fn endpoint(method: Method, path: &str, request: Vec<RawField>, response: Vec<RawField>) -> Api {
    let metadata = Metadata {
        description: "Add an alias to a room.".to_string(),
        method,
        name: "create_alias".to_string(),
        path: path.to_string(),
        rate_limited: false,
        requires_authentication: true,
    };
    build_api(RawApi { metadata, request, response }).ok().expect("valid endpoint")
}

fn create_alias() -> Api {
    endpoint(
        Method::Put,
        "/_matrix/client/r0/directory/room/:room_alias",
        vec![
            raw("room_id", TypeShape::Other, None),
            raw("room_alias", TypeShape::Other, attr("path", &[])),
        ],
        vec![],
    )
}

fn text(s: &str) -> FieldValue {
    FieldValue::Text(s.to_string())
}

fn as_text(v: &FieldValue) -> &str {
    match v {
        FieldValue::Text(t) => t.as_str(),
        _ => panic!("expected text"),
    }
}

#[test]
fn create_alias_request_round_trip() {
    let api = create_alias();
    let values = vec![text("\"!abc:example.org\""), text("#room:example.org")];
    let wire = request_to_wire(&api, &values).ok().expect("request converts");
    assert!(wire.method == Method::Put);
    assert_eq!(wire.path.len(), 7);
    assert_eq!(wire.path[6], "#room:example.org");
    let path = render_path(&api.template, &wire.path);
    assert!(path.starts_with("/_matrix/client/r0/directory/room/"));
    assert!(path.ends_with("%23room%3Aexample%2Eorg"));
    match &wire.body {
        WireBody::Object(members) => {
            assert_eq!(members.len(), 1);
            assert_eq!(members[0].0, "room_id");
            assert_eq!(members[0].1, "\"!abc:example.org\"");
            assert_eq!(object_text(members), Some("{\"room_id\":\"!abc:example.org\"}".to_string()));
        },
        _ => panic!("expected a JSON object body"),
    }
    let back = request_from_wire(&api, wire).ok().expect("request reads back");
    assert_eq!(back.len(), 2);
    assert_eq!(as_text(&back[0]), "\"!abc:example.org\"");
    assert_eq!(as_text(&back[1]), "#room:example.org");
}

#[test]
fn rendered_path_parses_back() {
    let api = create_alias();
    let values = vec![text("\"!abc:example.org\""), text("#room/with slash")];
    let wire = request_to_wire(&api, &values).ok().expect("request converts");
    let path = render_path(&api.template, &wire.path);
    assert!(!path.ends_with("#room/with slash"));
    let segments = parse_path(&api.template, &path).expect("path parses");
    assert_eq!(segments, wire.path);
    assert!(parse_path(&api.template, "/too/short").is_none());
    assert!(parse_path(&api.template, "/_matrix/client/r0/directory/room/%FF").is_none());
}

#[test]
fn every_placement_round_trips() {
    let api = endpoint(
        Method::Post,
        "/_matrix/some/endpoint/:baz",
        vec![
            raw("foo", TypeShape::Other, None),
            raw("content_type", TypeShape::Other, attr("header", &["content-type"])),
            raw("bar", TypeShape::Other, attr("query", &[])),
            raw("baz", TypeShape::Other, attr("path", &[])),
        ],
        vec![],
    );
    let values = vec![text("1"), text("application/json"), text("q"), text("p")];
    let wire = request_to_wire(&api, &values).ok().expect("request converts");
    assert_eq!(wire.query, vec![("bar".to_string(), "q".to_string())]);
    assert_eq!(wire.headers, vec![("content-type".to_string(), "application/json".to_string())]);
    let back = request_from_wire(&api, wire).ok().expect("request reads back");
    let texts: Vec<&str> = back.iter().map(as_text).collect();
    assert_eq!(texts, vec!["1", "application/json", "q", "p"]);
}

#[test]
fn query_map_and_raw_body_round_trip() {
    let api = endpoint(
        Method::Put,
        "/upload",
        vec![
            raw("params", TypeShape::StringPairs, attr("query_map", &[])),
            raw("file", TypeShape::Bytes, attr("raw_body", &[])),
        ],
        vec![],
    );
    let pairs = vec![("a".to_string(), "1".to_string()), ("a".to_string(), "2".to_string())];
    let values = vec![FieldValue::Pairs(pairs.clone()), FieldValue::Bytes(vec![0, 159, 146, 150])];
    let wire = request_to_wire(&api, &values).ok().expect("request converts");
    assert_eq!(wire.query, pairs);
    let back = request_from_wire(&api, wire).ok().expect("request reads back");
    assert!(matches!(&back[0], FieldValue::Pairs(p) if *p == pairs));
    assert!(matches!(&back[1], FieldValue::Bytes(b) if *b == vec![0u8, 159, 146, 150]));
}

#[test]
fn newtype_body_round_trips() {
    let api = endpoint(
        Method::Put,
        "/newtype",
        vec![raw("my_custom_type", TypeShape::Other, attr("body", &[]))],
        vec![],
    );
    let values = vec![text("{\"foo\":\"bar\"}")];
    let wire = request_to_wire(&api, &values).ok().expect("request converts");
    assert!(matches!(&wire.body, WireBody::Json(t) if t == "{\"foo\":\"bar\"}"));
    let back = request_from_wire(&api, wire).ok().expect("request reads back");
    assert_eq!(as_text(&back[0]), "{\"foo\":\"bar\"}");
}

#[test]
fn bad_header_value_fails() {
    assert!(header_value_ok("text/plain\tx"));
    assert!(header_value_ok("caf\u{e9}"));
    assert!(!header_value_ok("line\nbreak"));
    let api = endpoint(
        Method::Get,
        "/h",
        vec![raw("h", TypeShape::Other, attr("header", &["x-h"]))],
        vec![],
    );
    let r = request_to_wire(&api, &vec![text("bad\u{7f}")]);
    assert!(matches!(r, Err(IntoHttpError::InvalidValue(0))));
    let r = request_to_wire(&api, &vec![]);
    assert!(matches!(r, Err(IntoHttpError::LengthMismatch)));
    let r = request_to_wire(&api, &vec![FieldValue::Bytes(vec![1])]);
    assert!(matches!(r, Err(IntoHttpError::InvalidValue(0))));
}

#[test]
fn malformed_request_keeps_the_request() {
    let api = create_alias();
    let wire = WireRequest {
        method: Method::Put,
        path: vec!["".to_string(), "x".to_string()],
        query: vec![],
        headers: vec![],
        body: WireBody::Json("[]".to_string()),
    };
    match request_from_wire(&api, wire) {
        Err(FromHttpRequestError::Deserialization(e)) => {
            assert!(e.failure == DecodeFailure::Field(0));
            assert_eq!(e.request.path.len(), 2);
        },
        _ => panic!("expected a deserialization error"),
    }
}

#[test]
fn missing_path_segment_fails() {
    let api = create_alias();
    let wire = WireRequest {
        method: Method::Put,
        path: vec!["".to_string()],
        query: vec![],
        headers: vec![],
        body: WireBody::Object(vec![("room_id".to_string(), "\"!a:b\"".to_string())]),
    };
    match request_from_wire(&api, wire) {
        Err(FromHttpRequestError::Deserialization(e)) => assert!(e.failure == DecodeFailure::PathMismatch),
        _ => panic!("expected a deserialization error"),
    }
}

#[test]
fn path_with_other_literal_fails() {
    let api = create_alias();
    let path = ["", "_matrix", "client", "r0", "directory", "rooms", "#a:b"];
    let wire = WireRequest {
        method: Method::Put,
        path: path.iter().map(|s| s.to_string()).collect(),
        query: vec![],
        headers: vec![],
        body: WireBody::Object(vec![("room_id".to_string(), "\"!a:b\"".to_string())]),
    };
    match request_from_wire(&api, wire) {
        Err(FromHttpRequestError::Deserialization(e)) => assert!(e.failure == DecodeFailure::PathMismatch),
        _ => panic!("expected a deserialization error"),
    }
    assert!(parse_path(&api.template, "/_matrix/client/r0/directory/rooms/x").is_none());
}

#[test]
fn body_failure_is_reported_before_path() {
    let api = create_alias();
    let wire = WireRequest {
        method: Method::Put,
        path: vec![],
        query: vec![],
        headers: vec![],
        body: WireBody::Object(vec![]),
    };
    match request_from_wire(&api, wire) {
        Err(FromHttpRequestError::Deserialization(e)) => assert!(e.failure == DecodeFailure::Field(0)),
        _ => panic!("expected a deserialization error"),
    }
}

fn value_response() -> Api {
    endpoint(
        Method::Get,
        "/value",
        vec![],
        vec![
            raw("content_type", TypeShape::Other, attr("header", &["content-type"])),
            raw("value", TypeShape::Other, None),
        ],
    )
}

#[test]
fn status_404_is_server_error() {
    let api = value_response();
    let w = WireResponse {
        status: 404,
        headers: vec![("content-type".to_string(), "application/json".to_string())],
        body: WireBody::Object(vec![("value".to_string(), "\"x\"".to_string())]),
    };
    match response_from_wire(&api, w) {
        Err(FromHttpResponseError::Http(e)) => assert_eq!(e.response.status, 404),
        _ => panic!("expected a server error"),
    }
}

#[test]
fn response_round_trips() {
    let api = value_response();
    let values = vec![text("application/json"), text("\"x\"")];
    let w = response_to_wire(&api, &values).ok().expect("response converts");
    assert_eq!(w.status, 200);
    let back = response_from_wire(&api, w).ok().expect("response reads back");
    assert_eq!(as_text(&back[0]), "application/json");
    assert_eq!(as_text(&back[1]), "\"x\"");
}

#[test]
fn malformed_response_keeps_the_response() {
    let api = value_response();
    let w = WireResponse { status: 200, headers: vec![], body: WireBody::Raw(vec![1, 2]) };
    match response_from_wire(&api, w) {
        Err(FromHttpResponseError::Deserialization(e)) => {
            assert!(e.failure == DecodeFailure::Field(1));
            assert_eq!(e.response.status, 200);
        },
        _ => panic!("expected a deserialization error"),
    }
}

fn fallible_fields() -> Vec<OutgoingField> {
    vec![
        OutgoingField { name: "foo".to_string(), ty: "Foo".to_string(), wrap: WrapIncoming::Keep },
        OutgoingField {
            name: "x".to_string(),
            ty: "XEvent".to_string(),
            wrap: WrapIncoming::With("EventResult".to_string()),
        },
        OutgoingField {
            name: "y".to_string(),
            ty: "YEvent".to_string(),
            wrap: WrapIncoming::With("EventResult".to_string()),
        },
    ]
}

fn my_type() -> Vec<OutgoingField> {
    let f = |name: &str, ty: &str, wrap: WrapIncoming| OutgoingField { name: name.to_string(), ty: ty.to_string(), wrap };
    vec![
        f("foo", "Foo", WrapIncoming::Keep),
        f("bar", "Bar", WrapIncoming::Nested),
        f("baz", "Option<Baz>", WrapIncoming::NestedInner("Baz".to_string())),
        f("x", "XEvent", WrapIncoming::With("EventResult".to_string())),
        f("ys", "Vec<YEvent>", WrapIncoming::InnerWith("YEvent".to_string(), "EventResult".to_string())),
    ]
}

#[test]
fn derive_incoming_rewraps_marked_fields() {
    let plain = vec![OutgoingField { name: "a".to_string(), ty: "A".to_string(), wrap: WrapIncoming::Keep }];
    assert!(matches!(derive_incoming(plain, false), Ok(None)));
    let def = derive_incoming(my_type(), false).ok().flatten().expect("an incoming type");
    assert!(def.deserialize);
    let out = def.fields;
    assert_eq!(out.len(), 5);
    assert!(matches!(&out[0].ty, IncomingType::Same(t) if t == "Foo"));
    assert!(matches!(&out[1].ty, IncomingType::IncomingOf(t) if t == "Bar"));
    assert!(matches!(&out[2].ty, IncomingType::InnerIncoming(t, i) if t == "Option<Baz>" && i == "Baz"));
    assert!(matches!(&out[3].ty, IncomingType::Wrapped(w, t) if w == "EventResult" && t == "XEvent"));
    assert!(matches!(&out[4].ty, IncomingType::InnerWrapped(t, i, w) if t == "Vec<YEvent>" && i == "YEvent" && w == "EventResult"));
    assert_eq!(out[4].name, "ys");
}

#[test]
fn no_deserialize_marker_is_kept() {
    let def = derive_incoming(my_type(), true).ok().flatten().expect("an incoming type");
    assert!(!def.deserialize);
    assert_eq!(def.fields.len(), 5);
}

#[test]
fn malformed_wrap_requests_fail() {
    let mut fields = my_type();
    fields[2].wrap = WrapIncoming::NestedInner("Qux".to_string());
    assert!(matches!(derive_incoming(fields, false), Err(WrapError::Malformed(2))));
    let mut fields = my_type();
    fields[3].wrap = WrapIncoming::With(String::new());
    assert!(matches!(derive_incoming(fields, false), Err(WrapError::Malformed(3))));
    assert!(text_occurs("Vec<YEvent>", "YEvent"));
    assert!(!text_occurs("Vec<Y>", "YEvent"));
}

#[test]
fn one_malformed_fallible_field_leaves_the_other() {
    let fields = fallible_fields();
    let payloads = vec!["1".to_string(), "{\"broken\":".to_string(), "{\"ok\":true}".to_string()];
    let outcomes: Vec<Outcome> = payloads.iter().map(|p| json_outcome(p)).collect();
    let vs = assemble_incoming(&fields, payloads, outcomes).ok().expect("structure decodes");
    assert!(matches!(&vs[0], IncomingValue::Plain(v) if v == "1"));
    assert!(matches!(&vs[1], IncomingValue::Fallible(Decoded::Failed(p, e)) if p == "{\"broken\":" && !e.is_empty()));
    assert!(matches!(&vs[2], IncomingValue::Fallible(Decoded::Value(v)) if v == "{\"ok\":true}"));
}

#[test]
fn malformed_plain_field_fails_the_structure() {
    let fields = fallible_fields();
    let r = assemble_incoming(
        &fields,
        vec!["nope".to_string(), "1".to_string(), "2".to_string()],
        vec![Outcome::Failed("bad".to_string()), Outcome::Parsed, Outcome::Parsed],
    );
    assert!(matches!(r, Err(0)));
}

#[test]
fn items_and_nested_fields_are_isolated() {
    let fields = my_type();
    let inner = vec![IncomingValue::Fallible(Decoded::Failed("x".to_string(), "bad".to_string()))];
    let outcomes = vec![
        Outcome::Parsed,
        Outcome::Nested(inner),
        Outcome::Nested(vec![]),
        Outcome::Parsed,
        Outcome::Items(vec![
            ("1".to_string(), None),
            ("oops".to_string(), Some("bad item".to_string())),
            ("3".to_string(), None),
        ]),
    ];
    let payloads = vec!["a", "b", "c", "d", "e"].into_iter().map(|s| s.to_string()).collect();
    let vs = assemble_incoming(&fields, payloads, outcomes).ok().expect("structure decodes");
    assert!(matches!(&vs[1], IncomingValue::Nested(n) if n.len() == 1 && matches!(&n[0], IncomingValue::Fallible(Decoded::Failed(_, _)))));
    match &vs[4] {
        IncomingValue::Items(ds) => {
            assert_eq!(ds.len(), 3);
            assert!(matches!(&ds[0], Decoded::Value(v) if v == "1"));
            assert!(matches!(&ds[1], Decoded::Failed(p, e) if p == "oops" && e == "bad item"));
            assert!(matches!(&ds[2], Decoded::Value(v) if v == "3"));
        },
        _ => panic!("expected items"),
    }
}

#[test]
fn json_error_reports() {
    assert!(json_error("{\"a\":1}").is_none());
    assert!(json_error("{\"a\":").is_some());
}

#[test]
fn body_value_must_be_json() {
    let api = create_alias();
    let r = request_to_wire(&api, &vec![text("not json"), text("#a:b")]);
    assert!(matches!(r, Err(IntoHttpError::InvalidValue(0))));
}
