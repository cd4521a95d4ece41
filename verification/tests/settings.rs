use mcp_auth_proxy::config::ExtraHeader;
use mcp_auth_proxy::json::Json;
use mcp_auth_proxy::name_map::NameMap;
use mcp_auth_proxy::settings::{McpServerConfig, McpServerStore, Profile, ProfileStore};
use mcp_auth_proxy::tool_cache::ToolCache;

fn profile(name: &str, upstream: &str, tools: &[&str]) -> Profile {
    let mut allowed_tools: NameMap<Vec<String>> = NameMap::new();
    allowed_tools.insert(upstream.to_string(), tools.iter().map(|t| t.to_string()).collect());
    Profile { name: name.to_string(), allowed_tools }
}

fn server(name: &str, url: &str) -> McpServerConfig {
    McpServerConfig {
        name: name.to_string(),
        url: url.to_string(),
        auth_header: "Authorization".to_string(),
        auth_prefix: Some("Bearer".to_string()),
        credential_ref: "ref".to_string(),
        extra_headers: vec![ExtraHeader {
            header: "X-Key".to_string(),
            prefix: None,
            credential_ref: "other".to_string(),
        }],
    }
}

#[test]
fn profiles_are_kept_by_name() {
    let items = vec![profile("a", "u", &["x"]), profile("b", "u", &[]), profile("a", "u", &["y"])];
    let mut store = ProfileStore::new("profiles.json".to_string(), items);
    assert_eq!(store.file(), "profiles.json");
    assert_eq!(store.list().len(), 2);
    assert_eq!(store.get("a").unwrap().allowed("u"), vec!["y"]);
    assert!(store.get("c").is_none());
    store.upsert(profile("c", "v", &["z"]));
    assert_eq!(store.get("c").unwrap().allowed("v"), vec!["z"]);
    assert!(store.delete("a"));
    assert!(!store.delete("a"));
    assert!(store.get("a").is_none());
    assert_eq!(store.list().len(), 2);
}

#[test]
fn persisted_profiles_return() {
    let store = ProfileStore::new(
        "p".to_string(),
        vec![profile("a", "u", &["x"]), profile("b", "v", &["y", "z"])],
    );
    let again = ProfileStore::new("p".to_string(), store.list());
    assert_eq!(again.list().len(), 2);
    for p in store.list() {
        let q = again.get(&p.name).unwrap();
        assert_eq!(q.allowed("u"), p.allowed("u"));
        assert_eq!(q.allowed("v"), p.allowed("v"));
    }
}

#[test]
fn unlisted_upstreams_have_no_tools() {
    let p = profile("a", "u", &["x", "y"]);
    assert_eq!(p.allowed("u"), vec!["x", "y"]);
    assert!(p.allowed("other").is_empty());
}

#[test]
fn servers_are_kept_by_name() {
    let mut store = McpServerStore::new("servers.json".to_string(), vec![server("a", "http://a")]);
    store.upsert(server("a", "http://b"));
    store.upsert(server("c", "http://c"));
    assert_eq!(store.file(), "servers.json");
    assert_eq!(store.list().len(), 2);
    let a = store.get("a").unwrap();
    assert_eq!(a.url, "http://b");
    assert_eq!(a.extra_headers[0].credential_ref, "other");
    assert_eq!(a.auth_prefix.as_deref(), Some("Bearer"));
    assert!(store.delete("c"));
    assert!(!store.delete("c"));
    assert_eq!(McpServerStore::new("s".to_string(), store.list()).get("a").unwrap().url, "http://b");
}

#[test]
fn tools_are_cached_by_upstream() {
    let mut cache = ToolCache::new();
    assert!(cache.get_tools("u").is_none());
    cache.set_tools("u", vec![Json::text("one")]);
    cache.set_tools("u", vec![Json::text("two"), Json::text("three")]);
    cache.set_tools("v", Vec::new());
    assert_eq!(cache.get_tools("u").unwrap()[0].as_str(), Some("two"));
    let all = cache.get_all();
    assert_eq!(all.len(), 2);
    assert_eq!(all.get("u").unwrap().len(), 2);
    assert!(all.get("v").unwrap().is_empty());
    assert_eq!(cache.refresh_upstream("u", Err("down".to_string())), Err("down".to_string()));
    assert_eq!(cache.get_tools("u").unwrap().len(), 2);
    assert_eq!(cache.refresh_upstream("u", Ok(Vec::new())), Ok(()));
    assert!(cache.get_tools("u").unwrap().is_empty());
}
