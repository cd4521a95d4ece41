use mcp_auth_proxy::proxy::http_upstream::{
    convert_method, is_event_stream, response_headers, rewrite_uri, target_from_parts,
    HttpUpstream, Target,
};

fn header(name: &str, value: &str) -> (String, Vec<u8>) {
    (name.to_string(), value.as_bytes().to_vec())
}

fn target(path: &str, query: Option<&str>) -> Target {
    Target { path: path.to_string(), query: query.map(|q| q.to_string()) }
}

#[test]
fn trailing_slashes_are_dropped() {
    assert_eq!(HttpUpstream::new("https://a.example/mcp//".to_string()).base_url, "https://a.example/mcp");
}

#[test]
fn requests_are_forwarded() {
    let up = HttpUpstream::new("https://a.example/".to_string());
    let headers = vec![
        header("host", "localhost"),
        header("accept", "*/*"),
        header("connection", "close"),
        header("accept", "text/html"),
    ];
    let auth = vec![
        ("Authorization".to_string(), "Bearer t".to_string()),
        ("X-Key".to_string(), "k".to_string()),
    ];
    let r = up.forward("POST", &target("/mcp", Some("a=b")), &headers, &auth, b"{}".to_vec());
    assert_eq!(r.method, "POST");
    assert_eq!(r.url, "https://a.example/mcp?a=b");
    assert_eq!(
        r.headers,
        vec![
            header("accept", "*/*"),
            header("accept", "text/html"),
            header("Authorization", "Bearer t"),
            header("X-Key", "k"),
        ]
    );
    assert_eq!(r.body, Some(b"{}".to_vec()));
    let r = up.forward("TRACE", &target("/", None), &Vec::new(), &Vec::new(), Vec::new());
    assert_eq!(r.method, "GET");
    assert_eq!(r.url, "https://a.example/");
    assert!(r.headers.is_empty());
    assert_eq!(r.body, None);
}

#[test]
fn known_methods_are_kept() {
    for m in ["GET", "POST", "PUT", "DELETE", "PATCH", "HEAD", "OPTIONS"] {
        assert_eq!(convert_method(m), m);
    }
    assert_eq!(convert_method("CONNECT"), "GET");
}

#[test]
fn answers_are_handed_back() {
    let headers = vec![
        header("content-type", "text/event-stream"),
        header("transfer-encoding", "chunked"),
        header("x", "y"),
    ];
    assert_eq!(
        response_headers(&headers),
        vec![header("content-type", "text/event-stream"), header("x", "y")]
    );
    assert!(is_event_stream(Some("text/event-stream; charset=utf-8")));
    assert!(!is_event_stream(Some("application/json")));
    assert!(!is_event_stream(None));
}

#[test]
fn paths_are_rewritten() {
    let t = rewrite_uri("/a/b?c=d");
    assert_eq!(t.path, "/a/b");
    assert_eq!(t.query.as_deref(), Some("c=d"));
    let t = rewrite_uri("/");
    assert_eq!(t.path, "/");
    assert_eq!(t.query, None);
    let t = rewrite_uri("/a b");
    assert_eq!(t.path, "/");
    assert_eq!(t.query, None);
    let t = target_from_parts(Some(("/x".to_string(), None)));
    assert_eq!(t.path, "/x");
    let t = target_from_parts(None);
    assert_eq!(t.path, "/");
}
