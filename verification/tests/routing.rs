use mcp_auth_proxy::auth::{AuthEvent, AuthNeed, HeaderRun};
use mcp_auth_proxy::config::{AuthConfig, AuthMethod, TransportType, UpstreamConfig};
use mcp_auth_proxy::json::Json;
use mcp_auth_proxy::name_map::NameMap;
use mcp_auth_proxy::proxy::reply::{Reply, ReplyBody};
use mcp_auth_proxy::proxy::{
    build_remaining_path, is_well_formed_name, proxy_failed, proxy_with_filter, AppState,
    ProxyPlan, Route, Transport, TransportError, UpstreamState,
};
use mcp_auth_proxy::settings::{Profile, ProfileStore};
use mcp_auth_proxy::tool_cache::ToolCache;

fn upstream(prefix: &str, transport: TransportType) -> UpstreamConfig {
    UpstreamConfig {
        name: "configured".to_string(),
        path_prefix: prefix.to_string(),
        transport,
        log_mcp_traffic: true,
        url: Some("https://a.example/".to_string()),
        command: Some("npx".to_string()),
        args: vec!["-y".to_string()],
        env: NameMap::new(),
        auth: AuthConfig {
            method: AuthMethod::Static,
            header: "Authorization".to_string(),
            prefix: None,
            credential_ref: Some("ref".to_string()),
            oauth: None,
            extra_headers: Vec::new(),
        },
    }
}

fn profile(name: &str) -> Profile {
    let mut allowed_tools: NameMap<Vec<String>> = NameMap::new();
    allowed_tools.insert("up".to_string(), vec!["a".to_string()]);
    Profile { name: name.to_string(), allowed_tools }
}

fn state() -> AppState {
    AppState::new(
        vec![
            UpstreamState::build(&upstream("/up", TransportType::Http)),
            UpstreamState::build(&upstream("//other", TransportType::Stdio)),
        ],
        ToolCache::new(),
        ProfileStore::new("p".to_string(), vec![profile("dev")]),
    )
}

fn words(reply: Reply) -> (u16, String) {
    match reply.body {
        ReplyBody::Text(t) => (reply.status, t),
        ReplyBody::Json(t) => (reply.status, t),
    }
}

fn answered(path: &str) -> (u16, String) {
    match state().root_handler(path, &None) {
        Route::Answer(reply) => words(reply),
        Route::Forward { .. } => panic!("forwarded: {}", path),
    }
}

#[test]
fn paths_that_lead_nowhere() {
    let lost = (404, "no upstream configured for this path prefix".to_string());
    for path in ["", "/", "//", "/nowhere", "/dev/nowhere", "/dev/dev"] {
        assert_eq!(answered(path), lost);
    }
    assert_eq!(
        answered("/dev"),
        (400, "profile prefix requires an upstream path segment".to_string())
    );
}

#[test]
fn upstreams_are_reached_by_their_prefix() {
    match state().root_handler("//up//mcp/x/", &Some("q=1".to_string())) {
        Route::Forward { upstream, remaining, profile } => {
            assert_eq!(upstream, "up");
            assert_eq!(remaining, "/mcp/x?q=1");
            assert!(profile.is_none());
        }
        Route::Answer(_) => panic!("answered"),
    }
}

#[test]
fn profiles_limit_what_stands_under_them() {
    match state().root_handler("/dev/up", &None) {
        Route::Forward { upstream, remaining, profile } => {
            assert_eq!(upstream, "up");
            assert_eq!(remaining, "/");
            assert_eq!(profile.unwrap().name, "dev");
        }
        Route::Answer(_) => panic!("answered"),
    }
}

#[test]
fn profiles_take_precedence() {
    let mut s = state();
    s.update_profile("up".to_string(), profile("whatever"));
    match s.root_handler("/up/other", &None) {
        Route::Forward { upstream, profile, .. } => {
            assert_eq!(upstream, "other");
            assert_eq!(profile.unwrap().name, "up");
        }
        Route::Answer(_) => panic!("answered"),
    }
}

#[test]
fn remaining_paths() {
    let parts = vec!["a".to_string(), "b".to_string()];
    assert_eq!(build_remaining_path(&parts, &None), "/a/b");
    assert_eq!(build_remaining_path(&[], &Some("x".to_string())), "/?x");
}

#[test]
fn requests_are_planned() {
    let p = profile("dev");
    match proxy_with_filter("up", Err("too large".to_string()), "/", None) {
        ProxyPlan::Answer(reply) => assert_eq!(words(reply), (400, "failed to read body: too large".to_string())),
        ProxyPlan::Forward { .. } => panic!("forwarded"),
    }
    let call = b"{\"id\":1,\"method\":\"tools/call\",\"params\":{\"name\":\"b\"}}";
    match proxy_with_filter("up", Ok(call), "/mcp", Some(&p)) {
        ProxyPlan::Answer(reply) => {
            let (status, body) = words(reply);
            assert_eq!(status, 200);
            assert!(body.contains("tool 'b' is not allowed in profile 'dev'"));
        }
        ProxyPlan::Forward { .. } => panic!("forwarded"),
    }
    match proxy_with_filter("up", Ok(call), "/mcp?x=y", None) {
        ProxyPlan::Forward { target, method } => {
            assert_eq!(target.path, "/mcp");
            assert_eq!(target.query.as_deref(), Some("x=y"));
            assert_eq!(method.as_deref(), Some("tools/call"));
        }
        ProxyPlan::Answer(_) => panic!("answered"),
    }
}

#[test]
fn profile_names() {
    for good in ["dev", "a-b_c", "7", "é"] {
        assert!(is_well_formed_name(good));
    }
    for bad in ["", "a b", "a/b", "a.b"] {
        assert!(!is_well_formed_name(bad));
    }
}

#[test]
fn profiles_are_created() {
    let mut s = state();
    assert_eq!(
        words(s.create_profile(profile("up")).unwrap_err()),
        (409, "profile name conflicts with an upstream name".to_string())
    );
    assert_eq!(
        words(s.create_profile(profile("settings")).unwrap_err()),
        (409, "profile name 'settings' is reserved".to_string())
    );
    assert_eq!(
        words(s.create_profile(profile("a b")).unwrap_err()),
        (400, "profile name must be non-empty and contain only alphanumeric characters, hyphens, or underscores".to_string())
    );
    assert_eq!(s.profile_store.list().len(), 1);
    let (status, created) = s.create_profile(profile("ops")).unwrap();
    assert_eq!(status, 201);
    assert_eq!(created.name, "ops");
    assert_eq!(s.get_profile("ops").unwrap().allowed("up"), vec!["a"]);
    assert!(matches!(s.root_handler("/ops/up/x", &None), Route::Forward { profile: Some(_), .. }));
    assert!(s.refuse_creation("fine", true).is_none());
    assert_eq!(s.refuse_creation("fine", false).unwrap().status, 400);
}

#[test]
fn profiles_are_updated_and_deleted() {
    let mut s = state();
    assert_eq!(s.update_profile("dev".to_string(), profile("ignored")).name, "dev");
    assert!(s.get_profile("ignored").is_err());
    assert_eq!(s.delete_profile("dev").unwrap(), 204);
    assert_eq!(words(s.delete_profile("dev").unwrap_err()), (404, "profile not found".to_string()));
    match s.get_profile("dev") {
        Ok(_) => panic!("found"),
        Err(reply) => assert_eq!(words(reply), (404, "profile not found".to_string())),
    }
}

#[test]
fn upstreams_are_listed() {
    let mut names = state().list_upstreams();
    names.sort();
    assert_eq!(names, vec!["other", "up"]);
}

#[test]
fn tools_are_refreshed() {
    let mut s = state();
    assert!(s.refresh_upstream_tools("up").is_ok());
    assert_eq!(
        words(s.refresh_upstream_tools("no").unwrap_err()),
        (404, "upstream 'no' not found".to_string())
    );
    assert_eq!(
        words(s.tools_fetched("up", Ok(vec![Json::integer(1)]))),
        (200, "{\"tools\":[1],\"upstream\":\"up\"}".to_string())
    );
    assert_eq!(
        words(s.tools_fetched("up", Err("down".to_string()))),
        (502, "failed to fetch tools: down".to_string())
    );
    assert_eq!(s.tool_cache.get_tools("up").unwrap().len(), 1);
    assert_eq!(words(proxy_failed("x")), (502, "proxy error: x".to_string()));
    assert_eq!(words(s.list_cached_tools()), (200, "{\"up\":[1]}".to_string()));
}

#[test]
fn upstreams_are_built() {
    let http = UpstreamState::build(&upstream("/up", TransportType::Http));
    assert_eq!(http.name, "up");
    match http.do_proxy() {
        Ok(Transport::Http(h)) => assert_eq!(h.base_url, "https://a.example"),
        _ => panic!("no HTTP upstream"),
    }
    let stdio = UpstreamState::build(&upstream("//other", TransportType::Stdio));
    assert_eq!(stdio.name, "other");
    match stdio.do_proxy() {
        Ok(Transport::Stdio(s)) => {
            assert_eq!(s.command, "npx");
            assert_eq!(s.upstream_name, "configured");
            assert!(s.log_mcp_traffic);
        }
        _ => panic!("no stdio upstream"),
    }
    let mut broken = UpstreamState::build(&upstream("/up", TransportType::Http));
    broken.http = None;
    assert!(matches!(broken.do_proxy(), Err(TransportError::HttpNotConfigured)));
    broken.transport = TransportType::Stdio;
    assert!(matches!(broken.do_proxy(), Err(TransportError::StdioNotConfigured)));
    assert_eq!(TransportError::HttpNotConfigured.message(), "HTTP upstream not configured");
    assert_eq!(TransportError::StdioNotConfigured.message(), "stdio upstream not configured");
}

#[test]
fn later_upstreams_win() {
    let s = AppState::new(
        vec![
            UpstreamState::build(&upstream("/up", TransportType::Http)),
            UpstreamState::build(&upstream("//up", TransportType::Stdio)),
        ],
        ToolCache::new(),
        ProfileStore::new("p".to_string(), Vec::new()),
    );
    assert_eq!(s.upstreams.get("up").unwrap().transport, TransportType::Stdio);
    assert_eq!(s.upstreams.len(), 1);
}

#[test]
fn unauthorized_answers_renew_the_authentication() {
    let mut s = state();
    let mut run = HeaderRun::new();
    assert!(matches!(s.get_auth_headers("up", &mut run, 0), Some(AuthNeed::Resolve { .. })));
    s.supply_auth("up", &mut run, AuthEvent::Resolved { raw: "x".to_string() }, 0);
    assert!(matches!(s.get_auth_headers("up", &mut run, 0), Some(AuthNeed::Nothing)));
    assert_eq!(run.headers, vec![("Authorization".to_string(), "x".to_string())]);
    let plan = s.response_received("up", 200, None, None);
    assert!(!plan.refresh_auth);
    let mut again = HeaderRun::new();
    assert!(matches!(s.get_auth_headers("up", &mut again, 0), Some(AuthNeed::Nothing)));
    let plan = s.response_received("up", 401, None, None);
    assert!(plan.refresh_auth && !plan.read_body);
    let mut last = HeaderRun::new();
    assert!(matches!(s.get_auth_headers("up", &mut last, 0), Some(AuthNeed::Resolve { .. })));
    assert!(s.get_auth_headers("nowhere", &mut last, 0).is_none());
    s.handle_unauthorized("nowhere");
    assert_eq!(s.upstreams.len(), 2);
}

#[test]
fn listed_tools_pass_through_a_profile() {
    let mut s = state();
    let p = profile("dev");
    let plan = s.response_received("up", 200, Some("tools/list"), Some("application/json"));
    assert!(plan.read_body);
    let body = b"{\"result\":{\"tools\":[{\"name\":\"a\"},{\"name\":\"b\"}]}}".to_vec();
    let out = s.tools_listed("up", Some(&p), Some(body));
    assert_eq!(out, b"{\"result\":{\"tools\":[{\"name\":\"a\"}]}}".to_vec());
    assert_eq!(s.tool_cache.get_tools("up").unwrap().len(), 2);
}
