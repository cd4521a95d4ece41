use mcp_auth_proxy::config::{
    default_auth_header, default_client_name, default_host, default_keepass_password_env,
    default_port, default_redirect_port, default_storage_type, default_transport, AuthConfig,
    AuthMethod, Config, ConfigError, CredentialProviderConfig, OAuthConfig, ServerConfig,
    StorageType, TokenStorageConfig, TransportType, UpstreamConfig,
};
use mcp_auth_proxy::name_map::NameMap;

fn static_auth(credential_ref: Option<&str>) -> AuthConfig {
    AuthConfig {
        method: AuthMethod::Static,
        header: default_auth_header(),
        prefix: Some("Bearer".to_string()),
        credential_ref: credential_ref.map(|s| s.to_string()),
        oauth: None,
        extra_headers: Vec::new(),
    }
}

fn upstream(name: &str, path_prefix: &str) -> UpstreamConfig {
    UpstreamConfig {
        name: name.to_string(),
        path_prefix: path_prefix.to_string(),
        transport: TransportType::Http,
        log_mcp_traffic: false,
        url: Some("https://mcp.example".to_string()),
        command: None,
        args: Vec::new(),
        env: NameMap::new(),
        auth: static_auth(Some("op://vault/item/field")),
    }
}

fn config(upstreams: Vec<UpstreamConfig>) -> Config {
    Config {
        server: ServerConfig { host: default_host(), port: default_port() },
        upstreams,
        credential_provider: CredentialProviderConfig::OnePassword {},
        token_storage: TokenStorageConfig::default(),
    }
}

fn message(c: &Config) -> String {
    match c.validate() {
        Ok(()) => panic!("the configuration is accepted"),
        Err(e) => e.message(),
    }
}

#[test]
fn defaults() {
    assert_eq!(default_host(), "127.0.0.1");
    assert_eq!(default_port(), 3100);
    assert_eq!(default_transport(), TransportType::Http);
    assert_eq!(default_auth_header(), "Authorization");
    assert_eq!(default_redirect_port(), 8765);
    assert_eq!(default_client_name(), "mcp-auth-proxy");
    assert_eq!(default_keepass_password_env(), "KEEPASS_PASSWORD");
    assert_eq!(default_storage_type(), StorageType::Keychain);
    let storage = TokenStorageConfig::default();
    assert_eq!(storage.storage_type, StorageType::Keychain);
    assert_eq!(storage.fallback, Some(StorageType::EncryptedFile));
    assert!(storage.encrypted_file.is_none());
}

#[test]
fn server_address() {
    let c = config(Vec::new());
    assert_eq!(c.server.address(), "127.0.0.1:3100");
}

#[test]
fn valid_configurations_are_accepted() {
    assert!(config(Vec::new()).validate().is_ok());
    assert!(config(vec![upstream("a", "/a"), upstream("b", "/b")]).validate().is_ok());
}

#[test]
fn path_prefix_must_start_with_a_slash() {
    let c = config(vec![upstream("a", "a")]);
    assert_eq!(message(&c), "upstream 'a': path_prefix must start with '/'");
    let c = config(vec![upstream("a", "")]);
    assert!(matches!(c.validate(), Err(ConfigError::PathPrefix { .. })));
}

#[test]
fn http_needs_a_url() {
    let mut u = upstream("a", "/a");
    u.url = None;
    assert_eq!(
        message(&config(vec![u])),
        "upstream 'a': HTTP transport requires 'url' field"
    );
}

#[test]
fn stdio_needs_a_command() {
    let mut u = upstream("a", "/a");
    u.transport = TransportType::Stdio;
    assert_eq!(
        message(&config(vec![u])),
        "upstream 'a': stdio transport requires 'command' field"
    );
}

#[test]
fn static_auth_needs_a_credential() {
    let mut u = upstream("a", "/a");
    u.auth = static_auth(None);
    assert_eq!(
        message(&config(vec![u])),
        "upstream 'a': static auth requires 'credential_ref'"
    );
}

#[test]
fn oauth_needs_its_section() {
    let mut u = upstream("a", "/a");
    u.auth.method = AuthMethod::OAuth;
    assert_eq!(
        message(&config(vec![u])),
        "upstream 'a': oauth auth requires [upstream.auth.oauth] section"
    );
    let mut u = upstream("a", "/a");
    u.auth.method = AuthMethod::OAuth;
    u.auth.credential_ref = None;
    u.auth.oauth = Some(OAuthConfig {
        server_url: "https://auth.example".to_string(),
        scopes: Vec::new(),
        redirect_port: default_redirect_port(),
        client_name: default_client_name(),
    });
    assert!(config(vec![u]).validate().is_ok());
}

#[test]
fn path_prefixes_differ() {
    let c = config(vec![upstream("a", "/x"), upstream("b", "/y"), upstream("c", "/x")]);
    assert_eq!(message(&c), "duplicate path_prefix '/x' in upstream 'c'");
}

#[test]
fn faults_of_single_upstreams_come_first() {
    let mut broken = upstream("c", "/c");
    broken.url = None;
    let c = config(vec![upstream("a", "/x"), upstream("b", "/x"), broken]);
    assert_eq!(message(&c), "upstream 'c': HTTP transport requires 'url' field");
}
