//! The proxy's configuration and the rules that a configuration has to meet.
use vstd::prelude::*;
use vstd::string::*;
use crate::name_map::NameMap;
use crate::text;

verus! {

/// The whole configuration.
#[derive(Debug)]
pub struct Config {
    pub server: ServerConfig,
    pub upstreams: Vec<UpstreamConfig>,
    pub credential_provider: CredentialProviderConfig,
    pub token_storage: TokenStorageConfig,
}

/// Where the proxy listens.
#[derive(Debug)]
pub struct ServerConfig {
    pub host: String,
    pub port: u16,
}

/// One upstream MCP server.
#[derive(Debug)]
pub struct UpstreamConfig {
    pub name: String,
    pub path_prefix: String,
    pub transport: TransportType,
    pub log_mcp_traffic: bool,
    /// URL for HTTP upstream
    pub url: Option<String>,
    /// Command for stdio upstream
    pub command: Option<String>,
    /// Arguments for stdio upstream command
    pub args: Vec<String>,
    /// Environment variables for stdio upstream
    pub env: NameMap<String>,
    pub auth: AuthConfig,
}

/// How the proxy talks to an upstream.
#[derive(Debug, Clone, Copy, PartialEq, Eq, Structural)]
pub enum TransportType {
    Http,
    Stdio,
}

/// How the proxy authenticates to an upstream.
#[derive(Debug)]
pub struct AuthConfig {
    pub method: AuthMethod,
    /// HTTP header name for token injection
    pub header: String,
    /// Prefix prepended to the token value (e.g. "Bearer")
    pub prefix: Option<String>,
    /// Credential reference resolved via the credential provider (for static auth)
    pub credential_ref: Option<String>,
    /// OAuth configuration (for oauth auth)
    pub oauth: Option<OAuthConfig>,
    /// Additional headers to inject, each resolved via the credential provider
    pub extra_headers: Vec<ExtraHeader>,
}

/// An additional header to inject, resolved via the credential provider.
#[derive(Debug)]
pub struct ExtraHeader {
    pub header: String,
    pub prefix: Option<String>,
    pub credential_ref: String,
}

/// The two ways to authenticate.
#[derive(Debug, Clone, Copy, PartialEq, Eq, Structural)]
pub enum AuthMethod {
    Static,
    OAuth,
}

/// Settings of OAuth authentication.
#[derive(Debug)]
pub struct OAuthConfig {
    /// The OAuth authorization server URL (used for discovery)
    pub server_url: String,
    pub scopes: Vec<String>,
    /// Local port for the OAuth callback listener
    pub redirect_port: u16,
    /// Client name for dynamic client registration
    pub client_name: String,
}

/// Where credential references are resolved.
#[derive(Debug)]
pub enum CredentialProviderConfig {
    OnePassword {  },
    Bitwarden {  },
    KeePass {
        database_path: String,
        /// Environment variable name containing the master password
        password_env: String,
        key_file: Option<String>,
    },
}

/// Where tokens are kept.
#[derive(Debug)]
pub struct TokenStorageConfig {
    pub storage_type: StorageType,
    /// Fallback storage type if primary is unavailable
    pub fallback: Option<StorageType>,
    pub encrypted_file: Option<EncryptedFileConfig>,
}

/// The two kinds of token storage.
#[derive(Debug, Clone, Copy, PartialEq, Eq, Structural)]
pub enum StorageType {
    Keychain,
    EncryptedFile,
}

/// Settings of the encrypted file.
#[derive(Debug)]
pub struct EncryptedFileConfig {
    pub path: Option<String>,
}

/// The address that the server listens on when the configuration names none.
pub fn default_host() -> (r: String)
    ensures
        r@ == "127.0.0.1"@,
{
    "127.0.0.1".to_owned()
}

/// The port that the server listens on when the configuration names none.
pub fn default_port() -> (r: u16)
    ensures
        r == 3100,
{
    3100
}

/// The transport of an upstream that names none.
pub fn default_transport() -> (r: TransportType)
    ensures
        r == TransportType::Http,
{
    TransportType::Http
}

/// The header that carries the token when the configuration names none.
pub fn default_auth_header() -> (r: String)
    ensures
        r@ == "Authorization"@,
{
    "Authorization".to_owned()
}

/// The port of the OAuth callback listener when the configuration names none.
pub fn default_redirect_port() -> (r: u16)
    ensures
        r == 8765,
{
    8765
}

/// The name under which the proxy registers when the configuration names none.
pub fn default_client_name() -> (r: String)
    ensures
        r@ == "mcp-auth-proxy"@,
{
    "mcp-auth-proxy".to_owned()
}

/// The environment variable with the KeePass master password when the configuration names none.
pub fn default_keepass_password_env() -> (r: String)
    ensures
        r@ == "KEEPASS_PASSWORD"@,
{
    "KEEPASS_PASSWORD".to_owned()
}

/// The kind of token storage when the configuration names none.
pub fn default_storage_type() -> (r: StorageType)
    ensures
        r == StorageType::Keychain,
{
    StorageType::Keychain
}

impl Default for TokenStorageConfig {
    fn default() -> (r: Self)
        ensures
            r.storage_type == StorageType::Keychain,
            r.fallback == Some(StorageType::EncryptedFile),
            r.encrypted_file is None,
    {
        TokenStorageConfig {
            storage_type: StorageType::Keychain,
            fallback: Some(StorageType::EncryptedFile),
            encrypted_file: None,
        }
    }
}

impl ServerConfig {
    /// The address to listen on.
    pub fn address(&self) -> (r: String)
        ensures
            r@ == self.host@ + ":"@ + text::decimal(self.port as nat),
    {
        self.host.clone().concat(":").concat(text::decimal_text(self.port as u64).as_str())
    }
}

/// Why a configuration is refused.
#[derive(Debug)]
pub enum ConfigError {
    PathPrefix { upstream: String },
    MissingUrl { upstream: String },
    MissingCommand { upstream: String },
    MissingCredentialRef { upstream: String },
    MissingOAuth { upstream: String },
    DuplicatePathPrefix { path_prefix: String, upstream: String },
}

impl ConfigError {
    /// The words for this error.
    pub open spec fn words(self) -> Seq<char> {
        match self {
            ConfigError::PathPrefix { upstream } => "upstream '"@ + upstream@
                + "': path_prefix must start with '/'"@,
            ConfigError::MissingUrl { upstream } => "upstream '"@ + upstream@
                + "': HTTP transport requires 'url' field"@,
            ConfigError::MissingCommand { upstream } => "upstream '"@ + upstream@
                + "': stdio transport requires 'command' field"@,
            ConfigError::MissingCredentialRef { upstream } => "upstream '"@ + upstream@
                + "': static auth requires 'credential_ref'"@,
            ConfigError::MissingOAuth { upstream } => "upstream '"@ + upstream@
                + "': oauth auth requires [upstream.auth.oauth] section"@,
            ConfigError::DuplicatePathPrefix { path_prefix, upstream } => "duplicate path_prefix '"@
                + path_prefix@ + "' in upstream '"@ + upstream@ + "'"@,
        }
    }

    /// The words for this error.
    pub fn message(&self) -> (r: String)
        ensures
            r@ == self.words(),
    {
        match self {
            ConfigError::PathPrefix { upstream } => "upstream '".to_owned().concat(
                upstream.as_str(),
            ).concat("': path_prefix must start with '/'"),
            ConfigError::MissingUrl { upstream } => "upstream '".to_owned().concat(
                upstream.as_str(),
            ).concat("': HTTP transport requires 'url' field"),
            ConfigError::MissingCommand { upstream } => "upstream '".to_owned().concat(
                upstream.as_str(),
            ).concat("': stdio transport requires 'command' field"),
            ConfigError::MissingCredentialRef { upstream } => "upstream '".to_owned().concat(
                upstream.as_str(),
            ).concat("': static auth requires 'credential_ref'"),
            ConfigError::MissingOAuth { upstream } => "upstream '".to_owned().concat(
                upstream.as_str(),
            ).concat("': oauth auth requires [upstream.auth.oauth] section"),
            ConfigError::DuplicatePathPrefix { path_prefix, upstream } =>
            "duplicate path_prefix '".to_owned().concat(path_prefix.as_str()).concat(
                "' in upstream '",
            ).concat(upstream.as_str()).concat("'"),
        }
    }
}

impl UpstreamConfig {
    /// The first rule on a single upstream that this one breaks.
    pub open spec fn fault(self) -> Option<ConfigError> {
        if !(self.path_prefix@.len() > 0 && self.path_prefix@[0] == '/') {
            Some(ConfigError::PathPrefix { upstream: self.name })
        } else if self.transport == TransportType::Http && self.url is None {
            Some(ConfigError::MissingUrl { upstream: self.name })
        } else if self.transport == TransportType::Stdio && self.command is None {
            Some(ConfigError::MissingCommand { upstream: self.name })
        } else if self.auth.method == AuthMethod::Static && self.auth.credential_ref is None {
            Some(ConfigError::MissingCredentialRef { upstream: self.name })
        } else if self.auth.method == AuthMethod::OAuth && self.auth.oauth is None {
            Some(ConfigError::MissingOAuth { upstream: self.name })
        } else {
            None
        }
    }

    /// The first rule on a single upstream that this one breaks.
    fn check(&self) -> (r: Option<ConfigError>)
        ensures
            r == self.fault(),
    {
        let slash = "/";
        proof {
            reveal_strlit("/");
            if self.path_prefix@.len() > 0 {
                assert(self.path_prefix@.subrange(0, 1)[0] == self.path_prefix@[0]);
                if self.path_prefix@[0] == '/' {
                    assert(slash@ =~= self.path_prefix@.subrange(0, 1));
                }
            }
        }
        if !text::starts_with(self.path_prefix.as_str(), slash) {
            return Some(ConfigError::PathPrefix { upstream: self.name.clone() });
        }
        match self.transport {
            TransportType::Http => {
                if self.url.is_none() {
                    return Some(ConfigError::MissingUrl { upstream: self.name.clone() });
                }
            },
            TransportType::Stdio => {
                if self.command.is_none() {
                    return Some(ConfigError::MissingCommand { upstream: self.name.clone() });
                }
            },
        }
        match self.auth.method {
            AuthMethod::Static => {
                if self.auth.credential_ref.is_none() {
                    return Some(ConfigError::MissingCredentialRef { upstream: self.name.clone() });
                }
            },
            AuthMethod::OAuth => {
                if self.auth.oauth.is_none() {
                    return Some(ConfigError::MissingOAuth { upstream: self.name.clone() });
                }
            },
        }
        None
    }
}

impl Config {
    /// The upstream `i` breaks a rule on a single upstream, and none before it does.
    pub open spec fn first_fault_at(self, i: int) -> bool {
        &&& 0 <= i < self.upstreams@.len()
        &&& self.upstreams@[i].fault() is Some
        &&& forall|j: int| 0 <= j < i ==> (#[trigger] self.upstreams@[j]).fault() is None
    }

    /// The path prefix of the upstream `i` is that of an earlier one.
    pub open spec fn repeats_prefix(self, i: int) -> bool {
        exists|j: int|
            0 <= j < i && (#[trigger] self.upstreams@[j]).path_prefix@
                == self.upstreams@[i].path_prefix@
    }

    /// The upstream `i` has the path prefix of an earlier one, and none before it does.
    pub open spec fn first_repeat_at(self, i: int) -> bool {
        &&& 0 <= i < self.upstreams@.len()
        &&& self.repeats_prefix(i)
        &&& forall|j: int| 0 <= j < i ==> !(#[trigger] self.repeats_prefix(j))
    }

    /// Every upstream meets the rules on a single upstream, and no two share a path prefix.
    pub open spec fn valid(self) -> bool {
        &&& forall|i: int|
            0 <= i < self.upstreams@.len() ==> (#[trigger] self.upstreams@[i]).fault() is None
        &&& forall|i: int, j: int|
            0 <= i < j < self.upstreams@.len() ==> (#[trigger] self.upstreams@[i]).path_prefix@ != (
            #[trigger] self.upstreams@[j]).path_prefix@
    }

    /// Checks the configuration. The rules on each single upstream come first, in the order of the
    /// upstreams; then comes the rule that no two path prefixes are the same.
    pub fn validate(&self) -> (r: Result<(), ConfigError>)
        ensures
            r is Ok <==> self.valid(),
            r matches Err(e) ==> {
                ||| exists|i: int| #[trigger]
                    self.first_fault_at(i) && self.upstreams@[i].fault() == Some(e)
                ||| {
                    &&& forall|i: int|
                        0 <= i < self.upstreams@.len() ==> (
                        #[trigger] self.upstreams@[i]).fault() is None
                    &&& exists|i: int| #[trigger]
                        self.first_repeat_at(i) && e == (ConfigError::DuplicatePathPrefix {
                            path_prefix: self.upstreams@[i].path_prefix,
                            upstream: self.upstreams@[i].name,
                        })
                }
            },
    {
        let mut i: usize = 0;
        while i < self.upstreams.len()
            invariant
                i <= self.upstreams@.len(),
                forall|j: int| 0 <= j < i ==> (#[trigger] self.upstreams@[j]).fault() is None,
            decreases self.upstreams@.len() - i,
        {
            let fault = self.upstreams[i].check();
            if let Some(e) = fault {
                assert(self.first_fault_at(i as int));
                return Err(e);
            }
            i += 1;
        }
        let mut k: usize = 0;
        while k < self.upstreams.len()
            invariant
                k <= self.upstreams@.len(),
                forall|j: int|
                    0 <= j < self.upstreams@.len() ==> (#[trigger] self.upstreams@[j]).fault() is None,
                forall|j: int| 0 <= j < k ==> !(#[trigger] self.repeats_prefix(j)),
            decreases self.upstreams@.len() - k,
        {
            let mut j: usize = 0;
            while j < k
                invariant
                    j <= k < self.upstreams@.len(),
                    forall|a: int|
                        0 <= a < self.upstreams@.len() ==> (
                        #[trigger] self.upstreams@[a]).fault() is None,
                    forall|a: int| 0 <= a < k ==> !(#[trigger] self.repeats_prefix(a)),
                    forall|a: int|
                        0 <= a < j ==> (#[trigger] self.upstreams@[a]).path_prefix@
                            != self.upstreams@[k as int].path_prefix@,
                decreases k - j,
            {
                if text::same_text(
                    self.upstreams[j].path_prefix.as_str(),
                    self.upstreams[k].path_prefix.as_str(),
                ) {
                    assert(self.upstreams@[j as int].path_prefix@
                        == self.upstreams@[k as int].path_prefix@);
                    assert(self.repeats_prefix(k as int));
                    assert(self.first_repeat_at(k as int));
                    return Err(
                        ConfigError::DuplicatePathPrefix {
                            path_prefix: self.upstreams[k].path_prefix.clone(),
                            upstream: self.upstreams[k].name.clone(),
                        },
                    );
                }
                j += 1;
            }
            k += 1;
        }
        assert forall|i: int, j: int| 0 <= i < j < self.upstreams@.len() implies (
        #[trigger] self.upstreams@[i]).path_prefix@ != (
        #[trigger] self.upstreams@[j]).path_prefix@ by {
            assert(!self.repeats_prefix(j));
        }
        Ok(())
    }
}

/// An upstream is accepted exactly when its path prefix starts with a slash, an HTTP upstream has a
/// URL and a stdio upstream a command, static authentication has a credential and OAuth its section.
pub proof fn law_accepted_upstream(upstream: UpstreamConfig)
    ensures
        upstream.fault() is None <==> {
            &&& upstream.path_prefix@.len() > 0 && upstream.path_prefix@[0] == '/'
            &&& upstream.transport is Http ==> upstream.url is Some
            &&& upstream.transport is Stdio ==> upstream.command is Some
            &&& upstream.auth.method is Static ==> upstream.auth.credential_ref is Some
            &&& upstream.auth.method is OAuth ==> upstream.auth.oauth is Some
        },
{
}

/// A fault of an upstream names that upstream and a rule that it breaks; of several rules that are
/// broken the first one counts, in the order path prefix, transport, authentication.
pub proof fn law_upstream_fault(upstream: UpstreamConfig)
    requires
        upstream.fault() is Some,
    ensures
        match upstream.fault()->0 {
            ConfigError::PathPrefix { upstream: name } => name == upstream.name && (
            upstream.path_prefix@.len() == 0 || upstream.path_prefix@[0] != '/'),
            ConfigError::MissingUrl { upstream: name } => name == upstream.name
                && upstream.transport is Http && upstream.url is None,
            ConfigError::MissingCommand { upstream: name } => name == upstream.name
                && upstream.transport is Stdio && upstream.command is None,
            ConfigError::MissingCredentialRef { upstream: name } => name == upstream.name
                && upstream.auth.method is Static && upstream.auth.credential_ref is None,
            ConfigError::MissingOAuth { upstream: name } => name == upstream.name
                && upstream.auth.method is OAuth && upstream.auth.oauth is None,
            ConfigError::DuplicatePathPrefix { .. } => false,
        },
        upstream.path_prefix@.len() == 0 || upstream.path_prefix@[0] != '/'
            ==> upstream.fault()->0 is PathPrefix,
        upstream.path_prefix@.len() > 0 && upstream.path_prefix@[0] == '/' && ((
        upstream.transport is Http && upstream.url is None) || (upstream.transport is Stdio
            && upstream.command is None)) ==> upstream.fault()->0 is MissingUrl
            || upstream.fault()->0 is MissingCommand,
{
}

/// A configuration is accepted exactly when no upstream has a fault and no two share a path prefix.
pub proof fn law_accepted_config(config: Config)
    ensures
        config.valid() <==> {
            &&& forall|i: int|
                0 <= i < config.upstreams@.len() ==> (
                #[trigger] config.upstreams@[i]).fault() is None
            &&& forall|i: int, j: int|
                0 <= i < config.upstreams@.len() && 0 <= j < config.upstreams@.len() && (
                #[trigger] config.upstreams@[i]).path_prefix@ == (
                #[trigger] config.upstreams@[j]).path_prefix@ ==> i == j
        },
{
    if config.valid() {
        assert forall|i: int, j: int|
            0 <= i < config.upstreams@.len() && 0 <= j < config.upstreams@.len() && (
            #[trigger] config.upstreams@[i]).path_prefix@ == (
            #[trigger] config.upstreams@[j]).path_prefix@ implies i == j by {
            if i < j {
            } else if j < i {
            }
        }
    }
}

/// The upstream that a refusal is about is the first with a fault, or the first whose path prefix
/// an earlier upstream has.
pub proof fn law_first_offender(config: Config, i: int)
    ensures
        config.first_fault_at(i) ==> 0 <= i < config.upstreams@.len()
            && config.upstreams@[i].fault() is Some,
        config.first_fault_at(i) ==> forall|j: int|
            0 <= j < i ==> (#[trigger] config.upstreams@[j]).fault() is None,
        config.first_repeat_at(i) ==> 0 <= i < config.upstreams@.len() && exists|j: int|
            0 <= j < i && (#[trigger] config.upstreams@[j]).path_prefix@
                == config.upstreams@[i].path_prefix@,
        config.first_repeat_at(i) ==> forall|j: int, k: int|
            0 <= j < k < i ==> (#[trigger] config.upstreams@[j]).path_prefix@ != (
            #[trigger] config.upstreams@[k]).path_prefix@,
{
    if config.first_repeat_at(i) {
        assert forall|j: int, k: int| 0 <= j < k < i implies (
        #[trigger] config.upstreams@[j]).path_prefix@ != (
        #[trigger] config.upstreams@[k]).path_prefix@ by {
            assert(!config.repeats_prefix(k));
        }
    }
}

/// The words of a refusal name the upstream, and of a repeated path prefix that prefix too.
pub proof fn law_refusal_names_upstream(name: String, prefix: String)
    ensures
        ({
            let start = "upstream '"@ + name@ + "': "@;
            &&& start.is_prefix_of((ConfigError::PathPrefix { upstream: name }).words())
            &&& start.is_prefix_of((ConfigError::MissingUrl { upstream: name }).words())
            &&& start.is_prefix_of((ConfigError::MissingCommand { upstream: name }).words())
            &&& start.is_prefix_of((ConfigError::MissingCredentialRef { upstream: name }).words())
            &&& start.is_prefix_of((ConfigError::MissingOAuth { upstream: name }).words())
        }),
        (ConfigError::DuplicatePathPrefix { path_prefix: prefix, upstream: name }).words()
            == "duplicate path_prefix '"@ + prefix@ + "' in upstream '"@ + name@ + "'"@,
{
    reveal_strlit("upstream '");
    reveal_strlit("': ");
    reveal_strlit("': path_prefix must start with '/'");
    reveal_strlit("': HTTP transport requires 'url' field");
    reveal_strlit("': stdio transport requires 'command' field");
    reveal_strlit("': static auth requires 'credential_ref'");
    reveal_strlit("': oauth auth requires [upstream.auth.oauth] section");
    let start = "upstream '"@ + name@ + "': "@;
    let n = start.len() as int;
    assert((ConfigError::PathPrefix { upstream: name }).words().take(n) =~= start);
    assert((ConfigError::MissingUrl { upstream: name }).words().take(n) =~= start);
    assert((ConfigError::MissingCommand { upstream: name }).words().take(n) =~= start);
    assert((ConfigError::MissingCredentialRef { upstream: name }).words().take(n) =~= start);
    assert((ConfigError::MissingOAuth { upstream: name }).words().take(n) =~= start);
}

/// A configuration is accepted exactly when each upstream has what it needs and no two have the
/// same path prefix. The error is that of the first upstream that lacks something, and only where
/// none does that of the first that repeats a prefix.
pub proof fn law_validation(config: Config, r: Result<(), ConfigError>, i: int)
    requires
        call_ensures(Config::validate, (&config,), r),
    ensures
        r is Ok <==> (forall|k: int|
            0 <= k < config.upstreams@.len() ==> (#[trigger] config.upstreams@[k]).fault() is None)
            && (forall|j: int, k: int|
            0 <= j < k < config.upstreams@.len() ==> (#[trigger] config.upstreams@[j]).path_prefix@
                != (#[trigger] config.upstreams@[k]).path_prefix@),
        config.first_fault_at(i) ==> r == Err::<(), ConfigError>(config.upstreams@[i].fault()->0),
        (forall|k: int|
            0 <= k < config.upstreams@.len() ==> (#[trigger] config.upstreams@[k]).fault() is None)
            && config.first_repeat_at(i) ==> (r matches Err(e) && e.words()
            == "duplicate path_prefix '"@ + config.upstreams@[i].path_prefix@ + "' in upstream '"@
            + config.upstreams@[i].name@ + "'"@),
{
    if config.first_fault_at(i) {
        assert(config.upstreams@[i].fault() is Some);
        let k = choose|k: int| #[trigger]
            config.first_fault_at(k) && config.upstreams@[k].fault() == Some(r->Err_0);
        assert(config.first_fault_at(k) ==> k == i) by {
            if config.first_fault_at(k) {
                assert(config.upstreams@[k].fault() is Some);
            }
        }
    }
    if (forall|k: int|
        0 <= k < config.upstreams@.len() ==> (#[trigger] config.upstreams@[k]).fault() is None)
        && config.first_repeat_at(i) {
        assert(config.repeats_prefix(i));
        let j = choose|j: int|
            0 <= j < i && (#[trigger] config.upstreams@[j]).path_prefix@
                == config.upstreams@[i].path_prefix@;
        assert(config.upstreams@[j].path_prefix@ == config.upstreams@[i].path_prefix@);
        assert(r is Err);
        let k = choose|k: int| #[trigger]
            config.first_repeat_at(k) && r->Err_0 == (ConfigError::DuplicatePathPrefix {
                path_prefix: config.upstreams@[k].path_prefix,
                upstream: config.upstreams@[k].name,
            });
        assert(k == i) by {
            assert(config.repeats_prefix(k));
            assert(config.repeats_prefix(i));
        }
    }
}

} // verus!
