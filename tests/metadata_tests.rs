use ruma_api::api::{metadata_from_entries, parse_method, MetaEntry, MetaValue, Method};
use ruma_api::schema::SchemaError;

fn text(key: &str, value: &str) -> MetaEntry {
    MetaEntry { key: key.to_string(), value: MetaValue::Text(value.to_string()) }
}

fn flag(key: &str, value: bool) -> MetaEntry {
    MetaEntry { key: key.to_string(), value: MetaValue::Flag(value) }
}

fn entries() -> Vec<MetaEntry> {
    vec![
        text("description", "Does something."),
        text("method", "POST"),
        text("name", "some_endpoint"),
        text("path", "/_matrix/some/endpoint/:baz"),
        flag("rate_limited", false),
        flag("requires_authentication", true),
    ]
}

#[test]
fn methods_parse() {
    assert!(parse_method("GET") == Some(Method::Get));
    assert!(parse_method("PATCH") == Some(Method::Patch));
    assert!(parse_method("get").is_none());
    assert!(parse_method("TRACE") == Some(Method::Trace));
    assert!(parse_method("FETCH").is_none());
}

#[test]
fn metadata_reads() {
    let m = metadata_from_entries(&entries()).ok().expect("metadata");
    assert_eq!(m.description, "Does something.");
    assert!(m.method == Method::Post);
    assert_eq!(m.name, "some_endpoint");
    assert_eq!(m.path, "/_matrix/some/endpoint/:baz");
    assert!(!m.rate_limited);
    assert!(m.requires_authentication);
}

#[test]
fn metadata_faults() {
    let mut missing = entries();
    missing.remove(3);
    assert!(matches!(metadata_from_entries(&missing), Err(SchemaError::InvalidMetadata)));
    let mut wrong_kind = entries();
    wrong_kind[4] = text("rate_limited", "no");
    assert!(matches!(metadata_from_entries(&wrong_kind), Err(SchemaError::InvalidMetadata)));
    let mut bad_method = entries();
    bad_method[1] = text("method", "FETCH");
    assert!(matches!(metadata_from_entries(&bad_method), Err(SchemaError::InvalidMetadata)));
    let mut repeated = entries();
    repeated.push(text("name", "later"));
    assert_eq!(metadata_from_entries(&repeated).ok().expect("metadata").name, "some_endpoint");
}
