use mcp_auth_proxy::json::{duplicate_values, parse_json, parse_texts, Json};
use mcp_auth_proxy::name_map::NameMap;

fn parsed(text: &str) -> Json {
    match parse_json(text.as_bytes()) {
        Some(j) => j,
        None => panic!("not JSON: {}", text),
    }
}

#[test]
fn reads_and_writes() {
    let j = parsed("{\"b\": [1, 2.5, null, true], \"a\": \"x\\ny\"}");
    assert_eq!(j.to_text(), "{\"a\":\"x\\ny\",\"b\":[1,2.5,null,true]}");
    assert_eq!(j.duplicate().to_text(), j.to_text());
    assert!(parse_json(b"{").is_none());
    assert!(parse_json(b"").is_none());
}

#[test]
fn writes_on_several_lines() {
    assert_eq!(parsed("{\"a\":[1]}").to_pretty_text(), "{\n  \"a\": [\n    1\n  ]\n}");
}

#[test]
fn fields() {
    let j = parsed("{\"a\": \"x\", \"n\": null}");
    assert_eq!(j.get("a").and_then(|v| v.as_str()), Some("x"));
    assert!(matches!(j.get("n"), Some(Json::Null)));
    assert!(j.get("missing").is_none());
    assert!(Json::text("x").get("a").is_none());
    let changed = j.with_field("a", Json::integer(7));
    assert_eq!(changed.to_text(), "{\"a\":7,\"n\":null}");
    assert_eq!(Json::Null.with_field("a", Json::Null).to_text(), "null");
}

#[test]
fn last_field_of_a_name_counts() {
    let j = parsed("{\"a\": 1, \"a\": 2}");
    assert_eq!(j.to_text(), "{\"a\":2}");
    let built = Json::object(vec![
        ("a".to_string(), Json::integer(1)),
        ("a".to_string(), Json::integer(2)),
    ]);
    assert_eq!(built.to_text(), "{\"a\":2}");
    let changed = built.with_field("a", Json::integer(3)).with_field("b", Json::Null);
    assert_eq!(changed.to_text(), "{\"a\":3,\"b\":null}");
    assert!(changed.equals(&parsed("{\"b\":null,\"a\":3}")));
    assert_eq!(built.get("a").map(|v| v.to_text()), Some("2".to_string()));
}

#[test]
fn equality() {
    assert!(Json::integer(1).equals(&parsed("1")));
    assert!(!Json::integer(1).equals(&Json::text("1")));
    assert!(parsed("{\"a\":1,\"b\":2}").equals(&parsed("{\"b\":2,\"a\":1}")));
    assert!(!parsed("[1,2]").equals(&parsed("[2,1]")));
}

#[test]
fn lists() {
    let j = parsed("[1, \"a\"]");
    let items = match j.as_array() {
        Some(items) => items,
        None => panic!("no array"),
    };
    let again = duplicate_values(items);
    assert_eq!(again.len(), 2);
    assert_eq!(again[1].as_str(), Some("a"));
    assert!(Json::Null.as_array().is_none());
    assert!(Json::Null.as_str().is_none());
}

#[test]
fn objects_of_texts() {
    let mut texts: NameMap<String> = NameMap::new();
    texts.insert("k".to_string(), "v \"quoted\"\n\u{1F511}".to_string());
    texts.insert("".to_string(), "".to_string());
    let written = Json::from_texts(&texts).to_text();
    assert!(!written.contains('\n'));
    let back = match parse_texts(written.as_bytes()) {
        Some(m) => m,
        None => panic!("no texts"),
    };
    assert_eq!(back.len(), 2);
    assert_eq!(back.get("k"), texts.get("k"));
    assert_eq!(back.get(""), texts.get(""));
    assert!(parse_texts(b"{\"a\": 1}").is_none());
    assert!(parse_texts(b"[]").is_none());
    assert!(parse_texts(b"").is_none());
}

#[test]
fn objects_of_texts_have_no_reserved_names() {
    let reserved = "$serde_json::private::RawValue";
    let mut texts: NameMap<String> = NameMap::new();
    texts.insert(reserved.to_string(), "[1, 2".to_string());
    let written = Json::from_texts(&texts).to_text();
    let back = parse_texts(written.as_bytes()).unwrap();
    assert_eq!(back.get(reserved).map(|v| v.as_str()), Some("[1, 2"));
    assert_eq!(back.len(), 1);
}

#[test]
fn every_field_of_an_object_of_texts_is_a_text() {
    assert!(parse_texts(b"{\"a\": 1, \"a\": \"b\"}").is_none());
    let last = parse_texts(b"{\"a\": \"b\", \"a\": \"c\"}").unwrap();
    assert_eq!(last.get("a").map(|v| v.as_str()), Some("c"));
}
