use mcp_auth_proxy::auth::oauth::{Grant, TokenAction, TokenEvent};
use mcp_auth_proxy::auth::static_token::{StaticStep, StaticTokenAuth};
use mcp_auth_proxy::auth::{
    create_auth_strategy, AuthError, AuthEvent, AuthNeed, AuthStrategy, HeaderRun, PrimaryAuth,
};
use mcp_auth_proxy::config::{AuthConfig, AuthMethod, ExtraHeader, OAuthConfig};

const MINUTE: u64 = 60_000_000_000;

fn static_config(extras: &[(&str, &str)]) -> AuthConfig {
    AuthConfig {
        method: AuthMethod::Static,
        header: "Authorization".to_string(),
        prefix: Some("Bearer".to_string()),
        credential_ref: Some("main".to_string()),
        oauth: None,
        extra_headers: extras
            .iter()
            .map(|(h, c)| ExtraHeader {
                header: h.to_string(),
                prefix: None,
                credential_ref: c.to_string(),
            })
            .collect(),
    }
}

fn pair(name: &str, value: &str) -> (String, String) {
    (name.to_string(), value.to_string())
}

#[test]
fn credentials_are_cached_for_five_minutes() {
    let mut a = StaticTokenAuth::new("H".to_string(), Some("Token".to_string()), "ref".to_string());
    assert!(matches!(a.get_or_resolve(0), StaticStep::Resolve { credential_ref } if credential_ref == "ref"));
    assert_eq!(a.store_resolved("secret", MINUTE), "Token secret");
    assert!(matches!(a.get_or_resolve(6 * MINUTE - 1), StaticStep::Use { value } if value == "Token secret"));
    assert!(matches!(a.get_or_resolve(6 * MINUTE), StaticStep::Resolve { .. }));
    assert!(matches!(a.get_or_resolve(0), StaticStep::Use { .. }));
    assert_eq!(a.get_auth_headers(MINUTE), Some(vec![pair("H", "Token secret")]));
}

#[test]
fn credentials_without_a_prefix_stand_alone() {
    let a = StaticTokenAuth::new("H".to_string(), None, "ref".to_string());
    assert_eq!(a.resolve_token("secret"), "secret");
}

#[test]
fn an_unauthorized_answer_evicts_credentials() {
    let mut a = StaticTokenAuth::new("H".to_string(), None, "ref".to_string());
    a.store_resolved("secret", 0);
    a.handle_unauthorized();
    assert_eq!(a.get_auth_headers(0), None);
    assert!(matches!(a.get_or_resolve(0), StaticStep::Resolve { .. }));
}

#[test]
fn strategies_need_their_settings() {
    let mut c = static_config(&[]);
    c.credential_ref = None;
    let e = create_auth_strategy(&c, "up").unwrap_err();
    assert_eq!(e, AuthError::MissingCredentialRef);
    assert_eq!(e.message(), "static auth requires credential_ref");
    c.method = AuthMethod::OAuth;
    let e = create_auth_strategy(&c, "up").unwrap_err();
    assert_eq!(e.message(), "oauth auth requires [upstream.auth.oauth] section");
}

#[test]
fn headers_are_collected_in_order() {
    let mut a = create_auth_strategy(&static_config(&[("X-A", "a"), ("X-B", "b")]), "up").unwrap();
    let mut run = HeaderRun::new();
    for (reference, raw) in [("main", "m"), ("a", "1"), ("b", "2")] {
        match a.collect(&mut run, 0) {
            AuthNeed::Resolve { credential_ref } => assert_eq!(credential_ref, reference),
            other => panic!("{:?}", other),
        }
        assert!(a.supply(&mut run, AuthEvent::Resolved { raw: raw.to_string() }, 0).is_none());
    }
    assert!(matches!(a.collect(&mut run, 0), AuthNeed::Nothing));
    let expected = vec![pair("Authorization", "Bearer m"), pair("X-A", "1"), pair("X-B", "2")];
    assert_eq!(run.headers, expected);
    assert_eq!(a.get_auth_headers(0), Some(expected.clone()));
    let mut again = HeaderRun::new();
    assert!(matches!(a.collect(&mut again, MINUTE), AuthNeed::Nothing));
    assert_eq!(again.headers, expected);
    a.handle_unauthorized();
    assert_eq!(a.get_auth_headers(0), None);
    assert!(matches!(a.collect(&mut HeaderRun::new(), 0), AuthNeed::Resolve { .. }));
}

#[test]
fn oauth_tokens_are_collected() {
    let mut c = static_config(&[("X-A", "a")]);
    c.method = AuthMethod::OAuth;
    c.oauth = Some(OAuthConfig {
        server_url: "https://auth.example".to_string(),
        scopes: vec!["s".to_string()],
        redirect_port: 1,
        client_name: "n".to_string(),
    });
    let mut a = create_auth_strategy(&c, "up").unwrap();
    match &a.primary {
        PrimaryAuth::OAuth(o) => {
            assert_eq!(o.upstream_name, "up");
            assert_eq!(o.config.scopes, vec!["s"]);
        }
        PrimaryAuth::Static(_) => panic!("static"),
    }
    let mut run = HeaderRun::new();
    assert!(matches!(
        a.collect(&mut run, 0),
        AuthNeed::Token { action: TokenAction::Discover { .. } }
    ));
    let ignored = AuthEvent::Resolved { raw: "x".to_string() };
    assert!(a.supply(&mut run, ignored, 0).is_none());
    assert!(run.headers.is_empty());
    let granted = Grant { access_token: "t".to_string(), refresh_token: None, expires_in: None };
    let event = AuthEvent::Token(TokenEvent::Authorized(Ok(granted)));
    assert!(a.supply(&mut run, event, 0).is_none());
    assert!(matches!(a.collect(&mut run, 0), AuthNeed::Resolve { .. }));
    a.supply(&mut run, AuthEvent::Resolved { raw: "k".to_string() }, 0);
    assert_eq!(run.headers, vec![pair("Authorization", "Bearer t"), pair("X-A", "k")]);
    let late = AuthEvent::Token(TokenEvent::RefreshDeleted);
    assert!(a.supply(&mut run, late, 0).is_none());
    assert_eq!(run.headers.len(), 2);
}

#[test]
fn oauth_steps_are_passed_on() {
    let mut c = static_config(&[]);
    c.method = AuthMethod::OAuth;
    c.oauth = Some(OAuthConfig {
        server_url: "https://auth.example".to_string(),
        scopes: Vec::new(),
        redirect_port: 1,
        client_name: "n".to_string(),
    });
    let mut a = create_auth_strategy(&c, "up").unwrap();
    let mut run = HeaderRun::new();
    let event = AuthEvent::Token(TokenEvent::Refreshed(None));
    assert!(matches!(a.supply(&mut run, event, 0), Some(TokenAction::DeleteRefresh { .. })));
    assert!(run.headers.is_empty());
}
