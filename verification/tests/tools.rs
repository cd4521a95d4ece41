use mcp_auth_proxy::json::{parse_json, Json};
use mcp_auth_proxy::name_map::NameMap;
use mcp_auth_proxy::proxy::tools::{
    cache_tools_from_response, filter_message, filter_tools_list_response, finish_response,
    inspect_message, inspect_request, plan_response, refusal_message, Inspection,
};
use mcp_auth_proxy::settings::Profile;
use mcp_auth_proxy::tool_cache::ToolCache;

const LIST: &str = "{\"id\":1,\"jsonrpc\":\"2.0\",\"result\":{\"nextCursor\":\"c\",\"tools\":[{\"name\":\"a\"},{\"name\":\"b\"},{\"title\":\"nameless\"},{\"name\":3}]}}";

fn parsed(text: &str) -> Json {
    match parse_json(text.as_bytes()) {
        Some(j) => j,
        None => panic!("not JSON: {}", text),
    }
}

fn profile(tools: &[&str]) -> Profile {
    let mut allowed_tools: NameMap<Vec<String>> = NameMap::new();
    allowed_tools.insert("up".to_string(), tools.iter().map(|t| t.to_string()).collect());
    Profile { name: "dev".to_string(), allowed_tools }
}

fn texts(items: &[&str]) -> Vec<String> {
    items.iter().map(|t| t.to_string()).collect()
}

fn refused(body: &str, p: &Profile, upstream: &str) -> Option<String> {
    match inspect_request(body.as_bytes(), upstream, Some(p)) {
        Inspection::Refuse(answer) => Some(answer.to_text()),
        Inspection::Forward { .. } => None,
    }
}

#[test]
fn disallowed_calls_are_refused() {
    let p = profile(&["a"]);
    let call = "{\"jsonrpc\":\"2.0\",\"id\":\"q\",\"method\":\"tools/call\",\"params\":{\"name\":\"b\"}}";
    assert_eq!(
        refused(call, &p, "up"),
        Some("{\"error\":{\"code\":-32601,\"message\":\"tool 'b' is not allowed in profile 'dev'\"},\"id\":\"q\",\"jsonrpc\":\"2.0\"}".to_string())
    );
    let allowed = "{\"jsonrpc\":\"2.0\",\"id\":1,\"method\":\"tools/call\",\"params\":{\"name\":\"a\"}}";
    assert_eq!(refused(allowed, &p, "up"), None);
}

#[test]
fn nothing_is_allowed_on_unlisted_upstreams() {
    let p = profile(&["a"]);
    let call = "{\"method\":\"tools/call\",\"params\":{\"name\":\"a\"}}";
    let answer = refused(call, &p, "elsewhere").unwrap();
    assert!(answer.contains("\"id\":null"));
    let body = filter_tools_list_response(
        Some("application/json"),
        LIST.as_bytes().to_vec(),
        &p.allowed("elsewhere"),
    );
    assert!(String::from_utf8(body).unwrap().contains("\"tools\":[]"));
}

#[test]
fn other_messages_are_forwarded() {
    let p = profile(&[]);
    for body in ["{\"method\":\"tools/list\"}", "{\"method\":\"tools/call\"}", "{\"method\":\"tools/call\",\"params\":{\"name\":1}}"] {
        match inspect_request(body.as_bytes(), "up", Some(&p)) {
            Inspection::Forward { method } => assert!(method.unwrap().starts_with("tools/")),
            Inspection::Refuse(_) => panic!("refused: {}", body),
        }
    }
    assert!(matches!(
        inspect_request(b"not json", "up", Some(&p)),
        Inspection::Forward { method: None }
    ));
    let call = parsed("{\"method\":\"tools/call\",\"params\":{\"name\":\"b\"}}");
    assert!(matches!(
        inspect_message(Some(&call), "up", None),
        Inspection::Forward { method: Some(_) }
    ));
}

#[test]
fn refusals_carry_the_id() {
    let msg = parsed("{\"id\":[1]}");
    assert_eq!(refusal_message(&msg, "t", "p").get("id").unwrap().to_text(), "[1]");
}

#[test]
fn lists_lose_what_is_not_allowed() {
    let filtered = filter_message(&parsed(LIST), &texts(&["b"])).unwrap();
    assert_eq!(
        filtered.to_text(),
        "{\"id\":1,\"jsonrpc\":\"2.0\",\"result\":{\"nextCursor\":\"c\",\"tools\":[{\"name\":\"b\"}]}}"
    );
    let again = filter_message(&filtered, &texts(&["b"])).unwrap();
    assert_eq!(again.to_text(), filtered.to_text());
    assert!(filter_message(&parsed("{\"result\":{}}"), &texts(&["b"])).is_none());
    assert!(filter_message(&parsed("{\"result\":{\"tools\":3}}"), &texts(&["b"])).is_none());
}

#[test]
fn two_lists_keep_what_both_allow() {
    let once = filter_message(&parsed(LIST), &texts(&["a", "x"])).unwrap();
    let twice = filter_message(&once, &texts(&["b", "a"])).unwrap();
    let both = filter_message(&parsed(LIST), &texts(&["a"])).unwrap();
    assert_eq!(twice.to_text(), both.to_text());
    let swapped = filter_message(&parsed(LIST), &texts(&["b", "a", "b"])).unwrap();
    let sorted = filter_message(&parsed(LIST), &texts(&["a", "b"])).unwrap();
    assert_eq!(swapped.to_text(), sorted.to_text());
    let json = Some("application/json");
    let body = LIST.as_bytes().to_vec();
    let first = filter_tools_list_response(json, body.clone(), &texts(&["a", "b"]));
    assert_eq!(
        filter_tools_list_response(json, first, &texts(&["b"])),
        filter_tools_list_response(json, body, &texts(&["b"]))
    );
}

#[test]
fn listed_tools_are_the_callable_ones() {
    let p = profile(&["a"]);
    let filtered = filter_message(&parsed(LIST), &p.allowed("up")).unwrap().to_text();
    for tool in ["a", "b"] {
        let call = format!("{{\"method\":\"tools/call\",\"params\":{{\"name\":\"{}\"}}}}", tool);
        let listed = filtered.contains(&format!("\"name\":\"{}\"", tool));
        assert_eq!(refused(&call, &p, "up").is_none(), listed);
    }
}

#[test]
fn only_json_answers_are_filtered() {
    let body = LIST.as_bytes().to_vec();
    assert_eq!(filter_tools_list_response(Some("text/html"), body.clone(), &texts(&[])), body);
    assert_eq!(filter_tools_list_response(None, body.clone(), &texts(&[])), body);
    let filtered = filter_tools_list_response(
        Some("application/json; charset=utf-8"),
        body.clone(),
        &texts(&["a"]),
    );
    assert_ne!(filtered, body);
    assert_eq!(
        filter_tools_list_response(Some("application/json"), b"oops".to_vec(), &texts(&[])),
        b"oops".to_vec()
    );
}

#[test]
fn listed_tools_are_cached() {
    let mut cache = ToolCache::new();
    cache_tools_from_response(&mut cache, "up", Some("text/event-stream"), LIST.as_bytes());
    assert!(cache.get_tools("up").is_none());
    cache_tools_from_response(&mut cache, "up", Some("application/json"), LIST.as_bytes());
    assert_eq!(cache.get_tools("up").unwrap().len(), 4);
    cache_tools_from_response(&mut cache, "up", Some("application/json"), b"{\"error\":{}}");
    assert_eq!(cache.get_tools("up").unwrap().len(), 4);
}

#[test]
fn answers_are_planned() {
    let plan = plan_response(401, Some("tools/list"), Some("application/json"));
    assert!(plan.refresh_auth && plan.read_body);
    let plan = plan_response(200, Some("tools/list"), Some("text/event-stream"));
    assert!(!plan.refresh_auth && !plan.read_body);
    let plan = plan_response(200, Some("tools/call"), Some("application/json"));
    assert!(!plan.read_body);
    assert!(!plan_response(403, None, None).refresh_auth);
}

#[test]
fn answers_are_finished() {
    let mut cache = ToolCache::new();
    let p = profile(&["a"]);
    assert!(finish_response(&mut cache, "up", Some(&p), None).is_empty());
    assert!(cache.get_tools("up").is_none());
    let out = finish_response(&mut cache, "up", Some(&p), Some(LIST.as_bytes().to_vec()));
    assert!(!String::from_utf8(out).unwrap().contains("\"b\""));
    assert_eq!(cache.get_tools("up").unwrap().len(), 4);
    let out = finish_response(&mut cache, "up", None, Some(LIST.as_bytes().to_vec()));
    assert_eq!(out, LIST.as_bytes().to_vec());
}
