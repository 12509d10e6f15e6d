use ruma_api::api::{build_api, Api, Metadata, Method, RawApi};
use ruma_api::reading::{read_body, request_from_http, response_from_http};
use ruma_api::schema::{RawAttr, RawField, TypeShape};
use ruma_api::wire::{
    DecodeFailure, FieldValue, FromHttpRequestError, FromHttpResponseError, RawFailure,
    RawRequest, RawResponse, WireBody,
};

fn raw(name: &str, a: Option<RawAttr>) -> RawField {
    RawField { name: name.to_string(), shape: TypeShape::Other, attr: a }
}

fn path_attr() -> Option<RawAttr> {
    Some(RawAttr { name: "path".to_string(), args: vec![] })
}

fn create_alias() -> Api {
    let metadata = Metadata {
        description: "Add an alias to a room.".to_string(),
        method: Method::Put,
        name: "create_alias".to_string(),
        path: "/_matrix/client/r0/directory/room/:room_alias".to_string(),
        rate_limited: false,
        requires_authentication: true,
    };
    let request = vec![raw("room_id", None), raw("room_alias", path_attr())];
    let response = vec![raw("value", None)];
    build_api(RawApi { metadata, request, response }).ok().expect("valid endpoint")
}

fn request(target: &str, body: &str) -> RawRequest {
    RawRequest { method: Method::Put, target: target.to_string(), headers: vec![], body: body.as_bytes().to_vec() }
}

fn text(v: &FieldValue) -> &str {
    match v {
        FieldValue::Text(t) => t.as_str(),
        _ => panic!("expected text"),
    }
}

#[test]
fn received_request_reads() {
    let api = create_alias();
    let r = request("/_matrix/client/r0/directory/room/%23room%3Aexample.org", "{\"room_id\":\"!abc:example.org\"}");
    let vs = request_from_http(&api, r).ok().expect("request reads");
    assert_eq!(text(&vs[0]), "\"!abc:example.org\"");
    assert_eq!(text(&vs[1]), "#room:example.org");
}

#[test]
fn malformed_body_keeps_request_and_message() {
    let api = create_alias();
    let r = request("/not/matching", "{\"room_id\":");
    match request_from_http(&api, r) {
        Err(FromHttpRequestError::Malformed(m)) => {
            assert!(matches!(&m.failure, RawFailure::Body(msg) if !msg.is_empty()));
            assert_eq!(m.request.target, "/not/matching");
            assert_eq!(m.request.body, b"{\"room_id\":".to_vec());
        },
        _ => panic!("expected a body failure"),
    }
}

#[test]
fn unreadable_target_and_missing_field() {
    let api = create_alias();
    match request_from_http(&api, request("/_matrix/client/r0/directory/room/%FF", "{\"room_id\":\"x\"}")) {
        Err(FromHttpRequestError::Malformed(m)) => assert!(matches!(m.failure, RawFailure::Target)),
        _ => panic!("expected a target failure"),
    }
    match request_from_http(&api, request("/_matrix/client/r0/directory/room/a", "{}")) {
        Err(FromHttpRequestError::Malformed(m)) => {
            assert!(matches!(m.failure, RawFailure::Fields(DecodeFailure::Field(0))))
        },
        _ => panic!("expected a field failure"),
    }
}

#[test]
fn body_reads_by_form() {
    let api = create_alias();
    match read_body(&api.request_fields, &b"{\"b\":[1, 2],\"a\":true}".to_vec()) {
        Ok(WireBody::Object(m)) => {
            assert_eq!(m, vec![("a".to_string(), "true".to_string()), ("b".to_string(), "[1,2]".to_string())])
        },
        _ => panic!("expected an object"),
    }
    assert!(read_body(&api.request_fields, &b"[1]".to_vec()).is_err());
}

#[test]
fn received_error_status_is_server_error() {
    let api = create_alias();
    let r = RawResponse { status: 404, headers: vec![], body: b"{\"value\":1}".to_vec() };
    match response_from_http(&api, r) {
        Err(FromHttpResponseError::Http(e)) => {
            assert_eq!(e.response.status, 404);
            assert!(matches!(&e.response.body, WireBody::Raw(b) if *b == b"{\"value\":1}".to_vec()));
        },
        _ => panic!("expected a server error"),
    }
    let ok = RawResponse { status: 200, headers: vec![], body: b"{\"value\":1}".to_vec() };
    let vs = response_from_http(&api, ok).ok().expect("response reads");
    assert_eq!(text(&vs[0]), "1");
    let bad = RawResponse { status: 200, headers: vec![], body: b"nope".to_vec() };
    assert!(matches!(response_from_http(&api, bad), Err(FromHttpResponseError::Malformed(_))));
}
