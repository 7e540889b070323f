use tonic_core::metadata::MetadataMap;

fn map_of(pairs: &[(&str, &str)]) -> MetadataMap {
    let mut m = MetadataMap::new();
    for (k, v) in pairs {
        m.append_entry(k.to_string(), v.to_string());
    }
    m
}

#[test]
fn get_returns_first_value() {
    let m = map_of(&[("k", "a"), ("k", "b"), ("x", "y")]);
    assert_eq!(m.get("k").unwrap(), "a");
    assert_eq!(m.get("x").unwrap(), "y");
    assert!(m.get("missing").is_none());
}

#[test]
fn get_all_keeps_insertion_order() {
    let m = map_of(&[("k", "a"), ("x", "y"), ("k", "b")]);
    assert_eq!(m.get_all("k"), vec!["a".to_string(), "b".to_string()]);
}

#[test]
fn merge_appends_trailers_after_headers() {
    // A key only in the trailers appears in the merged map; for a key in
    // both, trailer values follow header values in per-key order.
    let mut headers = map_of(&[("k", "a"), ("h", "1")]);
    let trailers = map_of(&[("k", "b"), ("t", "x")]);
    headers.merge(&trailers);
    assert_eq!(headers.get_all("k"), vec!["a".to_string(), "b".to_string()]);
    assert_eq!(headers.get("t").unwrap(), "x");
    assert_eq!(headers.get("h").unwrap(), "1");
    assert_eq!(headers.len(), 4);
}

#[test]
fn merge_into_empty_map() {
    let mut headers = MetadataMap::new();
    let trailers = map_of(&[("t", "x")]);
    headers.merge(&trailers);
    assert_eq!(headers.get("t").unwrap(), "x");
    assert_eq!(headers.len(), 1);
}
