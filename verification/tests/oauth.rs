use mcp_auth_proxy::auth::oauth::{
    callback_from_pairs, callback_from_text, callback_response, discovery_answered, is_success,
    registration_answered, wait_for_callback,
    AuthorizationRequest, Callback, ClientCredentials, Grant, OAuthAuth, OAuthError,
    ServerMetadata, StoredClient, TokenAction, TokenEvent,
};
use mcp_auth_proxy::auth::AuthStrategy;
use mcp_auth_proxy::config::OAuthConfig;

const SECOND: u64 = 1_000_000_000;

fn config() -> OAuthConfig {
    OAuthConfig {
        server_url: "https://auth.example//".to_string(),
        scopes: vec!["read".to_string(), "write".to_string()],
        redirect_port: 8765,
        client_name: "mcp-auth-proxy".to_string(),
    }
}

fn auth() -> OAuthAuth {
    OAuthAuth::new("up".to_string(), "Authorization".to_string(), &config())
}

fn metadata() -> ServerMetadata {
    ServerMetadata {
        authorization_endpoint: "https://auth.example/authorize".to_string(),
        token_endpoint: "https://auth.example/token".to_string(),
        registration_endpoint: Some("https://auth.example/register".to_string()),
    }
}

fn credentials() -> ClientCredentials {
    ClientCredentials { client_id: "id".to_string(), client_secret: None }
}

fn grant(token: &str, refresh: Option<&str>, expires_in: Option<u64>) -> Grant {
    Grant {
        access_token: token.to_string(),
        refresh_token: refresh.map(|r| r.to_string()),
        expires_in,
    }
}

fn known(refresh: Option<&str>) -> OAuthAuth {
    let mut a = auth();
    a.state.metadata = Some(metadata());
    a.state.client_credentials = Some(credentials());
    a.state.refresh_token = refresh.map(|r| r.to_string());
    a
}

#[test]
fn first_run_goes_through_registration_and_authorization() {
    let mut a = auth();
    match a.ensure_token(0) {
        TokenAction::Discover { url } => assert_eq!(url, "https://auth.example/.well-known/oauth-authorization-server"),
        other => panic!("{:?}", other),
    }
    match a.step(TokenEvent::Discovered(Ok(metadata())), 0) {
        TokenAction::LoadClient { key } => assert_eq!(key, "oauth_up_client"),
        other => panic!("{:?}", other),
    }
    match a.step(TokenEvent::ClientLoaded(Ok(StoredClient::Absent)), 0) {
        TokenAction::Register { endpoint, request } => {
            assert_eq!(endpoint, "https://auth.example/register");
            assert_eq!(request.client_name, "mcp-auth-proxy");
            assert_eq!(request.redirect_uris, vec!["http://127.0.0.1:8765/callback"]);
            assert_eq!(request.grant_types, vec!["authorization_code", "refresh_token"]);
            assert_eq!(request.token_endpoint_auth_method, "client_secret_post");
        }
        other => panic!("{:?}", other),
    }
    match a.step(TokenEvent::Registered(Ok(credentials())), 0) {
        TokenAction::StoreClient { key, credentials } => {
            assert_eq!(key, "oauth_up_client");
            assert_eq!(credentials.client_id, "id");
        }
        other => panic!("{:?}", other),
    }
    match a.step(TokenEvent::ClientStored { credentials: credentials(), stored: true }, 0) {
        TokenAction::LoadRefresh { key } => assert_eq!(key, "oauth_up_refresh_token"),
        other => panic!("{:?}", other),
    }
    match a.step(TokenEvent::RefreshLoaded(Ok(None)), 0) {
        TokenAction::Authorize { metadata, credentials } => {
            assert_eq!(metadata.token_endpoint, "https://auth.example/token");
            assert_eq!(credentials.client_id, "id");
        }
        other => panic!("{:?}", other),
    }
    let g = grant("tok", Some("ref"), Some(3600));
    match a.step(TokenEvent::Authorized(Ok(g)), 0) {
        TokenAction::StoreAuthorized { key, grant } => {
            assert_eq!(key, "oauth_up_refresh_token");
            match a.step(TokenEvent::AuthorizedStored { grant, stored: true }, 10 * SECOND) {
                TokenAction::Use { token } => assert_eq!(token, "tok"),
                other => panic!("{:?}", other),
            }
        }
        other => panic!("{:?}", other),
    }
    assert_eq!(a.state.refresh_token.as_deref(), Some("ref"));
}

#[test]
fn granted_tokens_are_cached() {
    let mut a = known(Some("r"));
    match a.step(TokenEvent::Refreshed(Some(grant("t", None, Some(600)))), 100 * SECOND) {
        TokenAction::Use { token } => assert_eq!(token, "t"),
        other => panic!("{:?}", other),
    }
    assert!(matches!(a.ensure_token(400 * SECOND - 1), TokenAction::Use { token } if token == "t"));
    assert!(matches!(a.ensure_token(400 * SECOND), TokenAction::Refresh { .. }));
    assert_eq!(
        a.get_auth_headers(399 * SECOND),
        Some(vec![("Authorization".to_string(), "Bearer t".to_string())])
    );
    assert_eq!(a.get_auth_headers(400 * SECOND), None);
    assert_eq!(a.state.refresh_token.as_deref(), Some("r"));
    let mut a = known(None);
    a.step(TokenEvent::Authorized(Ok(grant("t", None, None))), 0);
    assert!(matches!(a.ensure_token(3300 * SECOND - 1), TokenAction::Use { .. }));
    assert!(matches!(a.ensure_token(3300 * SECOND), TokenAction::LoadRefresh { .. }));
}

#[test]
fn short_lived_tokens_are_used_once() {
    let mut a = known(None);
    let first = a.step(TokenEvent::Authorized(Ok(grant("t", None, Some(10)))), 5);
    assert!(matches!(first, TokenAction::Use { .. }));
    assert!(matches!(a.ensure_token(5), TokenAction::LoadRefresh { .. }));
}

#[test]
fn an_unauthorized_answer_drops_the_token() {
    let mut a = known(Some("r"));
    a.step(TokenEvent::Refreshed(Some(grant("t", None, Some(9000)))), 0);
    assert!(matches!(a.ensure_token(1), TokenAction::Use { .. }));
    a.handle_unauthorized();
    assert!(matches!(a.ensure_token(1), TokenAction::Refresh { refresh_token, .. } if refresh_token == "r"));
    assert!(a.state.metadata.is_some());
}

#[test]
fn a_failed_refresh_leads_to_authorization() {
    let mut a = known(Some("stale"));
    match a.step(TokenEvent::Refreshed(None), 0) {
        TokenAction::DeleteRefresh { key } => assert_eq!(key, "oauth_up_refresh_token"),
        other => panic!("{:?}", other),
    }
    assert!(a.state.refresh_token.is_none());
    assert!(matches!(a.step(TokenEvent::RefreshDeleted, 0), TokenAction::Authorize { .. }));
    let mut a = known(Some("old"));
    let stored = match a.step(TokenEvent::Refreshed(Some(grant("t", Some("new"), None))), 0) {
        TokenAction::StoreRefreshed { grant, .. } => grant,
        other => panic!("{:?}", other),
    };
    assert!(matches!(
        a.step(TokenEvent::RefreshedStored { grant: stored, stored: false }, 0),
        TokenAction::DeleteRefresh { .. }
    ));
    assert!(a.state.access_token.is_none());
}

#[test]
fn a_new_refresh_token_is_kept() {
    let mut a = known(Some("old"));
    let kept = match a.step(TokenEvent::Refreshed(Some(grant("t", Some("new"), None))), 0) {
        TokenAction::StoreRefreshed { grant, .. } => grant,
        other => panic!("{:?}", other),
    };
    assert!(matches!(
        a.step(TokenEvent::RefreshedStored { grant: kept, stored: true }, 0),
        TokenAction::Use { token } if token == "t"
    ));
    assert_eq!(a.state.refresh_token.as_deref(), Some("new"));
}

#[test]
fn stored_state_is_used() {
    let mut a = auth();
    a.step(TokenEvent::Discovered(Ok(metadata())), 0);
    let next = a.step(TokenEvent::ClientLoaded(Ok(StoredClient::Found(credentials()))), 0);
    assert!(matches!(next, TokenAction::LoadRefresh { .. }));
    let next = a.step(TokenEvent::RefreshLoaded(Ok(Some("r".to_string()))), 0);
    assert!(matches!(next, TokenAction::Refresh { refresh_token, .. } if refresh_token == "r"));
}

fn failure(action: TokenAction) -> String {
    match action {
        TokenAction::Fail(e) => e.message(),
        other => panic!("{:?}", other),
    }
}

#[test]
fn failures() {
    let mut a = auth();
    let refused = OAuthError::DiscoveryRefused {
        status: "404 Not Found".to_string(),
        body: "nope".to_string(),
    };
    assert_eq!(
        failure(a.step(TokenEvent::Discovered(Err(refused)), 0)),
        "OAuth discovery failed with status 404 Not Found: nope"
    );
    assert!(a.state.metadata.is_none());
    let mut plain = metadata();
    plain.registration_endpoint = None;
    a.step(TokenEvent::Discovered(Ok(plain)), 0);
    assert_eq!(
        failure(a.step(TokenEvent::ClientLoaded(Ok(StoredClient::Absent)), 0)),
        "OAuth server does not support Dynamic Client Registration (no registration_endpoint)"
    );
    assert!(a.state.metadata.is_some());
    assert_eq!(
        failure(a.step(TokenEvent::ClientLoaded(Ok(StoredClient::Unparsable)), 0)),
        "failed to parse stored DCR credentials"
    );
    let broken = OAuthError::Storage { reason: "locked".to_string() };
    assert_eq!(failure(a.step(TokenEvent::ClientLoaded(Err(broken)), 0)), "locked");
    let refused = OAuthError::RegistrationRefused {
        status: "400 Bad Request".to_string(),
        body: "".to_string(),
    };
    assert_eq!(
        failure(a.step(TokenEvent::Registered(Err(refused)), 0)),
        "DCR failed with status 400 Bad Request: "
    );
    let event = TokenEvent::ClientStored { credentials: credentials(), stored: false };
    assert_eq!(failure(a.step(event, 0)), "failed to store DCR credentials");
    assert!(a.state.client_credentials.is_none());
    let event = TokenEvent::RefreshLoaded(Err(OAuthError::Storage { reason: "x".to_string() }));
    assert_eq!(failure(a.step(event, 0)), "x");
    let event = TokenEvent::AuthorizedStored { grant: grant("t", Some("r"), None), stored: false };
    assert_eq!(failure(a.step(event, 0)), "failed to store refresh token");
    assert!(a.state.access_token.is_none());
    let event = TokenEvent::Authorized(Err(OAuthError::Exchange { reason: "bad".to_string() }));
    assert_eq!(failure(a.step(event, 0)), "token exchange failed: bad");
}

#[test]
fn words_of_errors() {
    assert_eq!(OAuthError::DiscoveryRequest.message(), "OAuth discovery request failed");
    assert_eq!(OAuthError::DiscoveryUnparsable.message(), "failed to parse OAuth server metadata");
    assert_eq!(OAuthError::RegistrationRequest.message(), "DCR request failed");
    assert_eq!(OAuthError::RegistrationUnparsable.message(), "failed to parse DCR response");
    assert_eq!(
        OAuthError::Bind { port: 80 }.message(),
        "failed to bind OAuth callback listener on port 80"
    );
    assert_eq!(OAuthError::Accept.message(), "failed to accept OAuth callback connection");
    assert_eq!(OAuthError::ReadCallback.message(), "failed to read OAuth callback");
}

#[test]
fn statuses_of_success() {
    assert!(is_success(200) && is_success(299));
    assert!(!is_success(199) && !is_success(300));
}

#[test]
fn only_answers_of_success_count() {
    let text = |s: &str| s.to_string();
    let found = discovery_answered(200, text("200 OK"), text("{}"), Some(metadata())).unwrap();
    assert_eq!(found.token_endpoint, "https://auth.example/token");
    assert!(matches!(
        discovery_answered(204, text("204 No Content"), text(""), None),
        Err(OAuthError::DiscoveryUnparsable)
    ));
    let refused = discovery_answered(302, text("302 Found"), text("moved"), Some(metadata()));
    assert_eq!(
        refused.unwrap_err().message(),
        "OAuth discovery failed with status 302 Found: moved"
    );
    let c = registration_answered(201, text("201 Created"), text(""), Some(credentials())).unwrap();
    assert_eq!(c.client_id, "id");
    assert!(matches!(
        registration_answered(200, text("200 OK"), text("?"), None),
        Err(OAuthError::RegistrationUnparsable)
    ));
    let refused = registration_answered(400, text("400 Bad Request"), text("no"), Some(credentials()));
    assert_eq!(refused.unwrap_err().message(), "DCR failed with status 400 Bad Request: no");
}

#[test]
fn long_requests_are_not_made() {
    let mut long = credentials();
    long.client_id = "a".repeat(0x800_0000);
    let e = auth().authorize(&metadata(), &long).unwrap_err();
    assert_eq!(e.message(), "OAuth authorization request is too long");
}

#[test]
fn endpoints_may_have_fragments() {
    let mut m = metadata();
    m.authorization_endpoint = "https://auth.example/authorize?a=b#top".to_string();
    let request = auth().authorize(&m, &credentials()).unwrap();
    assert!(request.url.starts_with("https://auth.example/authorize?a=b&response_type=code&"));
    assert!(request.url.ends_with("#top"));
}

#[test]
fn storage_keys_differ() {
    let a = auth();
    assert_eq!(a.storage_key("client"), "oauth_up_client");
    assert_ne!(a.storage_key("client"), a.storage_key("refresh_token"));
}

#[test]
fn authorization_requests() {
    let verifier = "v".repeat(43);
    let request = auth()
        .authorization_request(&metadata(), &credentials(), verifier.clone(), "st ate".to_string())
        .unwrap();
    assert_eq!(request.state, "st ate");
    assert_eq!(request.verifier, verifier);
    assert_eq!(
        request.url,
        "https://auth.example/authorize?response_type=code&client_id=id&state=st+ate&code_challenge=7w_YNF9DSfIdPf_pRjSq646_kPr-2-o9NAl16JGghdM&code_challenge_method=S256&redirect_uri=http%3A%2F%2F127.0.0.1%3A8765%2Fcallback&scope=read+write"
    );
    let mut bad = metadata();
    bad.token_endpoint = "token".to_string();
    let e = auth()
        .authorization_request(&bad, &credentials(), verifier, "s".to_string())
        .unwrap_err();
    assert_eq!(e.message(), "relative URL without a base");
}

#[test]
fn authorization_requests_are_drawn_at_random() {
    let one = auth().authorize(&metadata(), &credentials()).unwrap();
    let two = auth().authorize(&metadata(), &credentials()).unwrap();
    assert_ne!(one.state, two.state);
    assert_ne!(one.verifier, two.verifier);
    assert_eq!(one.verifier.len(), 43);
    assert_eq!(one.state.len(), 22);
    assert!(one.url.contains(&format!("state={}", one.state)));
}

#[test]
fn callbacks_belong_to_their_request() {
    let request = AuthorizationRequest {
        url: "".to_string(),
        state: "s".to_string(),
        verifier: "v".to_string(),
    };
    let good = Callback { code: "c".to_string(), state: "s".to_string() };
    assert_eq!(request.accept(good).unwrap(), "c");
    let bad = Callback { code: "c".to_string(), state: "other".to_string() };
    assert_eq!(
        request.accept(bad).unwrap_err().message(),
        "OAuth CSRF state mismatch — possible attack"
    );
}

#[test]
fn callbacks_are_read() {
    let c = wait_for_callback(b"GET /callback?code=a%20b&state=s&code=later HTTP/1.1\r\nHost: x\r\n\r\n").unwrap();
    assert_eq!(c.code, "a b");
    assert_eq!(c.state, "s");
    let message = |text: &str| callback_from_text(text).unwrap_err().message();
    assert_eq!(message(""), "empty callback request");
    assert_eq!(message("GET\r\n"), "malformed callback request");
    assert_eq!(message("\n"), "malformed callback request");
    assert_eq!(message("GET :port HTTP/1.1"), "failed to parse callback URL");
    assert_eq!(message("GET /callback?state=s HTTP/1.1"), "OAuth callback missing 'code' parameter");
    assert_eq!(message("GET /callback?code=c HTTP/1.1"), "OAuth callback missing 'state' parameter");
}

#[test]
fn callbacks_from_pairs() {
    let pairs = vec![
        ("state".to_string(), "s".to_string()),
        ("code".to_string(), "first".to_string()),
        ("code".to_string(), "second".to_string()),
    ];
    let c = callback_from_pairs(Some(&pairs)).unwrap();
    assert_eq!(c.code, "first");
    assert_eq!(c.state, "s");
    assert!(matches!(callback_from_pairs(None), Err(OAuthError::CallbackUrl)));
    assert!(matches!(callback_from_pairs(Some(&Vec::new())), Err(OAuthError::MissingCode)));
}

#[test]
fn browsers_are_answered() {
    let r = callback_response();
    assert!(r.starts_with("HTTP/1.1 200 OK\r\nContent-Type: text/html\r\n\r\n<html>"));
    assert!(r.ends_with("</p></body></html>"));
}
