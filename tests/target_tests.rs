use ruma_api::codec::{decode_query, encode_query, percent_decode, percent_encode};
use ruma_api::path::{find_char, parse_target, request_target};
use ruma_api::template::parse_template;
use ruma_api::wire::{WireBody, WireRequest};
use ruma_api::api::Method;

fn request(path: Vec<&str>, query: Vec<(&str, &str)>) -> WireRequest {
    WireRequest {
        method: Method::Get,
        path: path.into_iter().map(|s| s.to_string()).collect(),
        query: query.into_iter().map(|(k, v)| (k.to_string(), v.to_string())).collect(),
        headers: vec![],
        body: WireBody::Object(vec![]),
    }
}

#[test]
fn target_joins_path_and_query() {
    let ts = parse_template("/rooms/:id/messages");
    let w = request(vec!["", "rooms", "!a b", "messages"], vec![("from", "x y"), ("dir", "b")]);
    let target = request_target(&ts, &w).expect("target");
    assert_eq!(target, "/rooms/%21a%20b/messages?from=x+y&dir=b");
    let back = parse_target(&ts, &target).expect("target parses");
    assert_eq!(back.path, w.path);
    assert_eq!(back.query, w.query);
}

#[test]
fn target_without_query() {
    let ts = parse_template("/rooms/:id");
    let w = request(vec!["", "rooms", "abc"], vec![]);
    let target = request_target(&ts, &w).expect("target");
    assert_eq!(target, "/rooms/abc");
    let back = parse_target(&ts, &target).expect("target parses");
    assert!(back.query.is_empty());
    assert!(request_target(&ts, &request(vec!["", "rooms"], vec![])).is_none());
}

#[test]
fn codec_helpers() {
    assert_eq!(percent_encode("a.b"), "a%2Eb");
    assert_eq!(percent_decode("a%2Eb"), Some("a.b".to_string()));
    assert_eq!(percent_decode("%FF"), None);
    assert_eq!(encode_query(&vec![("a".to_string(), "1 2".to_string())]), Some("a=1+2".to_string()));
    assert_eq!(decode_query("a=1+2&b=%21"), Some(vec![("a".to_string(), "1 2".to_string()), ("b".to_string(), "!".to_string())]));
    assert_eq!(find_char("ab?c?", '?'), Some(2));
    assert_eq!(find_char("abc", '?'), None);
}
