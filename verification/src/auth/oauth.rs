//! OAuth 2.1 authentication with Dynamic Client Registration (DCR) and PKCE.
//!
//! The steps to a valid access token are decided here, one at a time: each `TokenAction` says what
//! is to be done outside, and what came of it is handed back as a `TokenEvent`. Times are counted
//! in nanoseconds from a common origin.
use vstd::prelude::*;
use vstd::string::*;
use oauth2::basic::BasicClient;
use oauth2::{
    AuthUrl, ClientId, CsrfToken, PkceCodeChallenge, PkceCodeVerifier, RedirectUrl, Scope, TokenUrl,
};
use crate::config::OAuthConfig;
use crate::settings;
use crate::text;

verus! {

/// How long before its end a token is no longer used, in seconds.
pub const TOKEN_EXPIRY_BUFFER_SECS: u64 = 300;

/// The lifetime of a token whose grant names none, in seconds.
pub const DEFAULT_LIFETIME_SECS: u64 = 3600;

/// How long a request to the authorization server may take, in seconds.
pub const OAUTH_TIMEOUT_SECS: u64 = 30;

/// DCR client credentials.
#[derive(Debug)]
pub struct ClientCredentials {
    pub client_id: String,
    pub client_secret: Option<String>,
}

/// Discovered server metadata.
#[derive(Debug)]
pub struct ServerMetadata {
    pub authorization_endpoint: String,
    pub token_endpoint: String,
    pub registration_endpoint: Option<String>,
}

/// A request for Dynamic Client Registration.
#[derive(Debug)]
pub struct DcrRequest {
    pub client_name: String,
    pub redirect_uris: Vec<String>,
    pub grant_types: Vec<String>,
    pub token_endpoint_auth_method: String,
}

/// An access token and the time from which on it is no longer used.
#[derive(Debug)]
pub struct CachedAccessToken {
    pub value: String,
    pub expires_at: i128,
}

/// What an authorization server grants. The lifetime is in seconds.
#[derive(Debug)]
pub struct Grant {
    pub access_token: String,
    pub refresh_token: Option<String>,
    pub expires_in: Option<u64>,
}

/// What is known so far.
#[derive(Debug)]
pub struct OAuthState {
    pub metadata: Option<ServerMetadata>,
    pub client_credentials: Option<ClientCredentials>,
    pub access_token: Option<CachedAccessToken>,
    pub refresh_token: Option<String>,
}

/// OAuth authentication to one upstream.
#[derive(Debug)]
pub struct OAuthAuth {
    pub upstream_name: String,
    pub header_name: String,
    pub config: OAuthConfig,
    pub state: OAuthState,
}

impl ClientCredentials {
    /// The same credentials again.
    pub fn duplicate(&self) -> (r: ClientCredentials)
        ensures
            r == *self,
    {
        ClientCredentials {
            client_id: self.client_id.clone(),
            client_secret: settings::duplicate_option(&self.client_secret),
        }
    }
}

impl ServerMetadata {
    /// The same metadata again.
    pub fn duplicate(&self) -> (r: ServerMetadata)
        ensures
            r == *self,
    {
        ServerMetadata {
            authorization_endpoint: self.authorization_endpoint.clone(),
            token_endpoint: self.token_endpoint.clone(),
            registration_endpoint: settings::duplicate_option(&self.registration_endpoint),
        }
    }
}

/// Why there is no access token.
#[derive(Debug)]
pub enum OAuthError {
    DiscoveryRequest,
    DiscoveryRefused { status: String, body: String },
    DiscoveryUnparsable,
    Storage { reason: String },
    StoredClientUnparsable,
    NoRegistrationEndpoint,
    RegistrationRequest,
    RegistrationRefused { status: String, body: String },
    RegistrationUnparsable,
    ClientNotStored,
    InvalidUrl { reason: String },
    RequestTooLong,
    Bind { port: u16 },
    Accept,
    ReadCallback,
    EmptyCallback,
    MalformedCallback,
    CallbackUrl,
    MissingCode,
    MissingState,
    StateMismatch,
    Exchange { reason: String },
    RefreshTokenNotStored,
}

impl OAuthError {
    /// The words for this error.
    pub open spec fn words(self) -> Seq<char> {
        match self {
            OAuthError::DiscoveryRequest => "OAuth discovery request failed"@,
            OAuthError::DiscoveryRefused { status, body } => "OAuth discovery failed with status "@
                + status@ + ": "@ + body@,
            OAuthError::DiscoveryUnparsable => "failed to parse OAuth server metadata"@,
            OAuthError::Storage { reason } => reason@,
            OAuthError::StoredClientUnparsable => "failed to parse stored DCR credentials"@,
            OAuthError::NoRegistrationEndpoint =>
            "OAuth server does not support Dynamic Client Registration (no registration_endpoint)"@,
            OAuthError::RegistrationRequest => "DCR request failed"@,
            OAuthError::RegistrationRefused { status, body } => "DCR failed with status "@ + status@
                + ": "@ + body@,
            OAuthError::RegistrationUnparsable => "failed to parse DCR response"@,
            OAuthError::ClientNotStored => "failed to store DCR credentials"@,
            OAuthError::InvalidUrl { reason } => reason@,
            OAuthError::RequestTooLong => "OAuth authorization request is too long"@,
            OAuthError::Bind { port } => "failed to bind OAuth callback listener on port "@
                + text::decimal(port as nat),
            OAuthError::Accept => "failed to accept OAuth callback connection"@,
            OAuthError::ReadCallback => "failed to read OAuth callback"@,
            OAuthError::EmptyCallback => "empty callback request"@,
            OAuthError::MalformedCallback => "malformed callback request"@,
            OAuthError::CallbackUrl => "failed to parse callback URL"@,
            OAuthError::MissingCode => "OAuth callback missing 'code' parameter"@,
            OAuthError::MissingState => "OAuth callback missing 'state' parameter"@,
            OAuthError::StateMismatch => "OAuth CSRF state mismatch — possible attack"@,
            OAuthError::Exchange { reason } => "token exchange failed: "@ + reason@,
            OAuthError::RefreshTokenNotStored => "failed to store refresh token"@,
        }
    }

    /// The words for this error.
    pub fn message(&self) -> (r: String)
        ensures
            r@ == self.words(),
    {
        match self {
            OAuthError::DiscoveryRequest => "OAuth discovery request failed".to_owned(),
            OAuthError::DiscoveryRefused { status, body } =>
            "OAuth discovery failed with status ".to_owned().concat(status.as_str()).concat(
                ": ",
            ).concat(body.as_str()),
            OAuthError::DiscoveryUnparsable => "failed to parse OAuth server metadata".to_owned(),
            OAuthError::Storage { reason } => reason.clone(),
            OAuthError::StoredClientUnparsable =>
            "failed to parse stored DCR credentials".to_owned(),
            OAuthError::NoRegistrationEndpoint =>
            "OAuth server does not support Dynamic Client Registration (no registration_endpoint)".to_owned(),
            OAuthError::RegistrationRequest => "DCR request failed".to_owned(),
            OAuthError::RegistrationRefused { status, body } =>
            "DCR failed with status ".to_owned().concat(status.as_str()).concat(": ").concat(
                body.as_str(),
            ),
            OAuthError::RegistrationUnparsable => "failed to parse DCR response".to_owned(),
            OAuthError::ClientNotStored => "failed to store DCR credentials".to_owned(),
            OAuthError::InvalidUrl { reason } => reason.clone(),
            OAuthError::RequestTooLong => "OAuth authorization request is too long".to_owned(),
            OAuthError::Bind { port } =>
            "failed to bind OAuth callback listener on port ".to_owned().concat(
                text::decimal_text(*port as u64).as_str(),
            ),
            OAuthError::Accept => "failed to accept OAuth callback connection".to_owned(),
            OAuthError::ReadCallback => "failed to read OAuth callback".to_owned(),
            OAuthError::EmptyCallback => "empty callback request".to_owned(),
            OAuthError::MalformedCallback => "malformed callback request".to_owned(),
            OAuthError::CallbackUrl => "failed to parse callback URL".to_owned(),
            OAuthError::MissingCode => "OAuth callback missing 'code' parameter".to_owned(),
            OAuthError::MissingState => "OAuth callback missing 'state' parameter".to_owned(),
            OAuthError::StateMismatch => "OAuth CSRF state mismatch — possible attack".to_owned(),
            OAuthError::Exchange { reason } => "token exchange failed: ".to_owned().concat(
                reason.as_str(),
            ),
            OAuthError::RefreshTokenNotStored => "failed to store refresh token".to_owned(),
        }
    }
}

/// What is to be done next.
#[derive(Debug)]
pub enum TokenAction {
    /// Nothing: the token is to be used.
    Use { token: String },
    /// Fetch the server metadata.
    Discover { url: String },
    /// Look up the stored client credentials.
    LoadClient { key: String },
    /// Register as a client.
    Register { endpoint: String, request: DcrRequest },
    /// Store the client credentials.
    StoreClient { key: String, credentials: ClientCredentials },
    /// Look up the stored refresh token.
    LoadRefresh { key: String },
    /// Trade the refresh token for an access token.
    Refresh { metadata: ServerMetadata, credentials: ClientCredentials, refresh_token: String },
    /// Store the refresh token of the grant that a refresh gave.
    StoreRefreshed { key: String, grant: Grant },
    /// Delete the stored refresh token, whatever comes of it.
    DeleteRefresh { key: String },
    /// Have the user authorize the proxy.
    Authorize { metadata: ServerMetadata, credentials: ClientCredentials },
    /// Store the refresh token of the grant that an authorization gave.
    StoreAuthorized { key: String, grant: Grant },
    /// Nothing: there is no token.
    Fail(OAuthError),
}

/// What the stored client credentials came to.
#[derive(Debug)]
pub enum StoredClient {
    Absent,
    Unparsable,
    Found(ClientCredentials),
}

/// What came of an action.
#[derive(Debug)]
pub enum TokenEvent {
    Discovered(Result<ServerMetadata, OAuthError>),
    ClientLoaded(Result<StoredClient, OAuthError>),
    Registered(Result<ClientCredentials, OAuthError>),
    ClientStored { credentials: ClientCredentials, stored: bool },
    RefreshLoaded(Result<Option<String>, OAuthError>),
    /// A grant, or nothing where the refresh failed.
    Refreshed(Option<Grant>),
    RefreshedStored { grant: Grant, stored: bool },
    RefreshDeleted,
    Authorized(Result<Grant, OAuthError>),
    AuthorizedStored { grant: Grant, stored: bool },
}

/// Whether an HTTP status is one of success.
pub fn is_success(status: u16) -> (r: bool)
    ensures
        r == (200 <= status < 300),
{
    200 <= status && status < 300
}

/// What the answer to a request for metadata comes to. Only an answer of success counts.
pub open spec fn discovery_outcome(
    status: u16,
    status_text: String,
    body: String,
    parsed: Option<ServerMetadata>,
) -> Result<ServerMetadata, OAuthError> {
    if 200 <= status < 300 {
        match parsed {
            Some(metadata) => Ok(metadata),
            None => Err(OAuthError::DiscoveryUnparsable),
        }
    } else {
        Err(OAuthError::DiscoveryRefused { status: status_text, body })
    }
}

/// What the answer to a request for metadata comes to: `status_text` names its status, `body` is its
/// body, and `parsed` the metadata that the body reads as, if it does. Only an answer of success
/// counts.
pub fn discovery_answered(
    status: u16,
    status_text: String,
    body: String,
    parsed: Option<ServerMetadata>,
) -> (r: Result<ServerMetadata, OAuthError>)
    ensures
        r == discovery_outcome(status, status_text, body, parsed),
{
    if !is_success(status) {
        return Err(OAuthError::DiscoveryRefused { status: status_text, body });
    }
    match parsed {
        Some(metadata) => Ok(metadata),
        None => Err(OAuthError::DiscoveryUnparsable),
    }
}

/// What the answer to a registration comes to. Only an answer of success counts.
pub open spec fn registration_outcome(
    status: u16,
    status_text: String,
    body: String,
    parsed: Option<ClientCredentials>,
) -> Result<ClientCredentials, OAuthError> {
    if 200 <= status < 300 {
        match parsed {
            Some(credentials) => Ok(credentials),
            None => Err(OAuthError::RegistrationUnparsable),
        }
    } else {
        Err(OAuthError::RegistrationRefused { status: status_text, body })
    }
}

/// What the answer to a registration comes to: `status_text` names its status, `body` is its body,
/// and `parsed` the credentials that the body reads as, if it does. Only an answer of success
/// counts.
pub fn registration_answered(
    status: u16,
    status_text: String,
    body: String,
    parsed: Option<ClientCredentials>,
) -> (r: Result<ClientCredentials, OAuthError>)
    ensures
        r == registration_outcome(status, status_text, body, parsed),
{
    if !is_success(status) {
        return Err(OAuthError::RegistrationRefused { status: status_text, body });
    }
    match parsed {
        Some(credentials) => Ok(credentials),
        None => Err(OAuthError::RegistrationUnparsable),
    }
}

/// The key under which something of an upstream is stored.
pub open spec fn stored_under(upstream_name: Seq<char>, suffix: Seq<char>) -> Seq<char> {
    "oauth_"@ + upstream_name + "_"@ + suffix
}

/// The address of the metadata of an authorization server.
pub open spec fn well_known(server_url: Seq<char>) -> Seq<char> {
    text::strip_trailing(server_url, '/') + "/.well-known/oauth-authorization-server"@
}

/// The address that the browser is sent back to.
pub open spec fn callback_address(port: u16) -> Seq<char> {
    "http://127.0.0.1:"@ + text::decimal(port as nat) + "/callback"@
}

/// The time from which on a token granted at the time `now` is no longer used.
pub open spec fn usable_until(now: u64, expires_in: Option<u64>) -> int {
    let lifetime = match expires_in {
        Some(secs) => secs,
        None => DEFAULT_LIFETIME_SECS,
    };
    now + (lifetime - TOKEN_EXPIRY_BUFFER_SECS) * 1_000_000_000
}

impl OAuthState {
    /// The cached token, where it may still be used at the time `now`.
    pub open spec fn usable(self, now: u64) -> Option<String> {
        match self.access_token {
            Some(token) => if token.expires_at > now {
                Some(token.value)
            } else {
                None
            },
            None => None,
        }
    }

    /// The state after a grant at the time `now`.
    pub open spec fn granted(self, grant: Grant, now: u64) -> OAuthState {
        OAuthState {
            access_token: Some(
                CachedAccessToken {
                    value: grant.access_token,
                    expires_at: usable_until(now, grant.expires_in) as i128,
                },
            ),
            refresh_token: if grant.refresh_token is Some {
                grant.refresh_token
            } else {
                self.refresh_token
            },
            ..self
        }
    }
}

impl OAuthAuth {
    /// The settings are those of `other`.
    pub open spec fn same_settings(self, other: OAuthAuth) -> bool {
        &&& self.upstream_name == other.upstream_name
        &&& self.header_name == other.header_name
        &&& self.config == other.config
    }

    /// The key under which something is stored.
    pub open spec fn key(self, suffix: Seq<char>) -> Seq<char> {
        stored_under(self.upstream_name@, suffix)
    }

    /// `action` goes on where the metadata is to be known next.
    pub open spec fn goes_on(self, action: TokenAction) -> bool {
        match (self.state.metadata, self.state.client_credentials) {
            (None, _) => action matches TokenAction::Discover { url } && url@ == well_known(
                self.config.server_url@,
            ),
            (Some(_), None) => action matches TokenAction::LoadClient { key } && key@ == self.key(
                "client"@,
            ),
            (Some(metadata), Some(credentials)) => match self.state.refresh_token {
                None => action matches TokenAction::LoadRefresh { key } && key@ == self.key(
                    "refresh_token"@,
                ),
                Some(refresh_token) => action == (TokenAction::Refresh {
                    metadata,
                    credentials,
                    refresh_token,
                }),
            },
        }
    }

    /// `action` goes on where there is no refresh token to try: the user has to authorize.
    pub open spec fn goes_on_authorizing(self, action: TokenAction) -> bool {
        match (self.state.metadata, self.state.client_credentials) {
            (Some(metadata), Some(credentials)) => action == (TokenAction::Authorize {
                metadata,
                credentials,
            }),
            _ => self.goes_on(action),
        }
    }

    /// The request to register as a client.
    pub open spec fn asks_registration(self, request: DcrRequest) -> bool {
        &&& request.client_name == self.config.client_name
        &&& request.redirect_uris.deep_view() == seq![callback_address(self.config.redirect_port)]
        &&& request.grant_types.deep_view() == seq!["authorization_code"@, "refresh_token"@]
        &&& request.token_endpoint_auth_method@ == "client_secret_post"@
    }

    /// `action` goes on where no client credentials are stored.
    pub open spec fn goes_on_registering(self, action: TokenAction) -> bool {
        match self.state.metadata {
            None => self.goes_on(action),
            Some(metadata) => match metadata.registration_endpoint {
                None => action matches TokenAction::Fail(OAuthError::NoRegistrationEndpoint),
                Some(endpoint) => action matches TokenAction::Register {
                    endpoint: asked,
                    request,
                } && asked == endpoint && self.asks_registration(request),
            },
        }
    }

    /// `action` gives up the stored refresh token.
    pub open spec fn gives_up_refresh(self, action: TokenAction) -> bool {
        action matches TokenAction::DeleteRefresh { key } && key@ == self.key("refresh_token"@)
    }

    /// `action` is the first step to a valid access token at the time `now`.
    pub open spec fn starts(self, now: u64, action: TokenAction) -> bool {
        match self.state.usable(now) {
            Some(token) => action == (TokenAction::Use { token }),
            None => self.goes_on(action),
        }
    }

    /// What becomes of `self`, and what is to be done next, when `event` has come at the time
    /// `now`.
    pub open spec fn stepped(self, event: TokenEvent, now: u64, after: OAuthAuth, action: TokenAction) -> bool {
        let same = after == self;
        let failed = |e: OAuthError| same && action == TokenAction::Fail(e);
        let granted = |grant: Grant|
            {
                &&& after.same_settings(self)
                &&& after.state == self.state.granted(grant, now)
                &&& action == (TokenAction::Use { token: grant.access_token })
            };
        match event {
            TokenEvent::Discovered(Err(e)) => failed(e),
            TokenEvent::Discovered(Ok(metadata)) => {
                &&& after == (OAuthAuth {
                    state: OAuthState { metadata: Some(metadata), ..self.state },
                    ..self
                })
                &&& after.goes_on(action)
            },
            TokenEvent::ClientLoaded(Err(e)) => failed(e),
            TokenEvent::ClientLoaded(Ok(StoredClient::Unparsable)) => failed(
                OAuthError::StoredClientUnparsable,
            ),
            TokenEvent::ClientLoaded(Ok(StoredClient::Absent)) => same && self.goes_on_registering(
                action,
            ),
            TokenEvent::ClientLoaded(Ok(StoredClient::Found(credentials))) => {
                &&& after == (OAuthAuth {
                    state: OAuthState { client_credentials: Some(credentials), ..self.state },
                    ..self
                })
                &&& after.goes_on(action)
            },
            TokenEvent::Registered(Err(e)) => failed(e),
            TokenEvent::Registered(Ok(credentials)) => {
                &&& same
                &&& action matches TokenAction::StoreClient { key, credentials: kept } && key@
                    == self.key("client"@) && kept == credentials
            },
            TokenEvent::ClientStored { credentials, stored } => if stored {
                &&& after == (OAuthAuth {
                    state: OAuthState { client_credentials: Some(credentials), ..self.state },
                    ..self
                })
                &&& after.goes_on(action)
            } else {
                failed(OAuthError::ClientNotStored)
            },
            TokenEvent::RefreshLoaded(Err(e)) => failed(e),
            TokenEvent::RefreshLoaded(Ok(None)) => same && self.goes_on_authorizing(action),
            TokenEvent::RefreshLoaded(Ok(Some(token))) => {
                &&& after == (OAuthAuth {
                    state: OAuthState { refresh_token: Some(token), ..self.state },
                    ..self
                })
                &&& after.goes_on(action)
            },
            TokenEvent::Refreshed(None) => {
                &&& after == (OAuthAuth {
                    state: OAuthState { refresh_token: None, ..self.state },
                    ..self
                })
                &&& self.gives_up_refresh(action)
            },
            TokenEvent::Refreshed(Some(grant)) => if grant.refresh_token is Some {
                &&& same
                &&& action matches TokenAction::StoreRefreshed { key, grant: kept } && key@
                    == self.key("refresh_token"@) && kept == grant
            } else {
                granted(grant)
            },
            TokenEvent::RefreshedStored { grant, stored } => if stored {
                granted(grant)
            } else {
                &&& after == (OAuthAuth {
                    state: OAuthState { refresh_token: None, ..self.state },
                    ..self
                })
                &&& self.gives_up_refresh(action)
            },
            TokenEvent::RefreshDeleted => same && self.goes_on_authorizing(action),
            TokenEvent::Authorized(Err(e)) => failed(e),
            TokenEvent::Authorized(Ok(grant)) => if grant.refresh_token is Some {
                &&& same
                &&& action matches TokenAction::StoreAuthorized { key, grant: kept } && key@
                    == self.key("refresh_token"@) && kept == grant
            } else {
                granted(grant)
            },
            TokenEvent::AuthorizedStored { grant, stored } => if stored {
                granted(grant)
            } else {
                failed(OAuthError::RefreshTokenNotStored)
            },
        }
    }

    /// OAuth authentication to the upstream `upstream_name`, of which nothing is known yet.
    pub fn new(upstream_name: String, header_name: String, config: &OAuthConfig) -> (r: OAuthAuth)
        ensures
            r.upstream_name == upstream_name,
            r.header_name == header_name,
            r.config.server_url == config.server_url,
            r.config.scopes.deep_view() == config.scopes.deep_view(),
            r.config.redirect_port == config.redirect_port,
            r.config.client_name == config.client_name,
            r.state == (OAuthState {
                metadata: None,
                client_credentials: None,
                access_token: None,
                refresh_token: None,
            }),
    {
        OAuthAuth {
            upstream_name,
            header_name,
            config: OAuthConfig {
                server_url: config.server_url.clone(),
                scopes: settings::duplicate_texts(&config.scopes),
                redirect_port: config.redirect_port,
                client_name: config.client_name.clone(),
            },
            state: OAuthState {
                metadata: None,
                client_credentials: None,
                access_token: None,
                refresh_token: None,
            },
        }
    }

    /// The key under which something is stored.
    pub fn storage_key(&self, suffix: &str) -> (r: String)
        ensures
            r@ == stored_under(self.upstream_name@, suffix@),
    {
        "oauth_".to_owned().concat(self.upstream_name.as_str()).concat("_").concat(suffix)
    }

    /// The address of the metadata of the authorization server.
    pub fn discovery_url(&self) -> (r: String)
        ensures
            r@ == well_known(self.config.server_url@),
    {
        text::trim_end_matches(self.config.server_url.as_str(), '/').to_owned().concat(
            "/.well-known/oauth-authorization-server",
        )
    }

    /// The address that the browser is sent back to.
    pub fn redirect_uri(&self) -> (r: String)
        ensures
            r@ == callback_address(self.config.redirect_port),
    {
        "http://127.0.0.1:".to_owned().concat(
            text::decimal_text(self.config.redirect_port as u64).as_str(),
        ).concat("/callback")
    }

    /// The request to register as a client.
    pub fn register_client(&self) -> (r: DcrRequest)
        ensures
            self.asks_registration(r),
    {
        let mut redirect_uris: Vec<String> = Vec::new();
        redirect_uris.push(self.redirect_uri());
        let mut grant_types: Vec<String> = Vec::new();
        grant_types.push("authorization_code".to_owned());
        grant_types.push("refresh_token".to_owned());
        assert(redirect_uris.deep_view() =~= seq![callback_address(self.config.redirect_port)]);
        assert(grant_types.deep_view() =~= seq!["authorization_code"@, "refresh_token"@]);
        DcrRequest {
            client_name: self.config.client_name.clone(),
            redirect_uris,
            grant_types,
            token_endpoint_auth_method: "client_secret_post".to_owned(),
        }
    }

    /// The next step where the metadata is to be known next.
    fn go_on(&self) -> (r: TokenAction)
        ensures
            self.goes_on(r),
    {
        match (&self.state.metadata, &self.state.client_credentials) {
            (None, _) => TokenAction::Discover { url: self.discovery_url() },
            (Some(_), None) => TokenAction::LoadClient { key: self.storage_key("client") },
            (Some(metadata), Some(credentials)) => match &self.state.refresh_token {
                None => TokenAction::LoadRefresh { key: self.storage_key("refresh_token") },
                Some(refresh_token) => TokenAction::Refresh {
                    metadata: metadata.duplicate(),
                    credentials: credentials.duplicate(),
                    refresh_token: refresh_token.clone(),
                },
            },
        }
    }

    /// The next step where there is no refresh token to try.
    fn go_on_authorizing(&self) -> (r: TokenAction)
        ensures
            self.goes_on_authorizing(r),
    {
        match (&self.state.metadata, &self.state.client_credentials) {
            (Some(metadata), Some(credentials)) => TokenAction::Authorize {
                metadata: metadata.duplicate(),
                credentials: credentials.duplicate(),
            },
            _ => self.go_on(),
        }
    }

    /// The next step where no client credentials are stored.
    fn go_on_registering(&self) -> (r: TokenAction)
        ensures
            self.goes_on_registering(r),
    {
        match &self.state.metadata {
            None => self.go_on(),
            Some(metadata) => match &metadata.registration_endpoint {
                None => TokenAction::Fail(OAuthError::NoRegistrationEndpoint),
                Some(endpoint) => TokenAction::Register {
                    endpoint: endpoint.clone(),
                    request: self.register_client(),
                },
            },
        }
    }

    /// Gives up the refresh token.
    fn give_up_refresh(&mut self) -> (r: TokenAction)
        ensures
            *final(self) == (OAuthAuth {
                state: OAuthState { refresh_token: None, ..old(self).state },
                ..*old(self)
            }),
            old(self).gives_up_refresh(r),
    {
        self.state.refresh_token = None;
        TokenAction::DeleteRefresh { key: self.storage_key("refresh_token") }
    }

    /// Takes in a grant at the time `now`: its token is cached until shortly before its end.
    fn take_grant(&mut self, grant: Grant, now: u64) -> (r: TokenAction)
        ensures
            final(self).same_settings(*old(self)),
            final(self).state == old(self).state.granted(grant, now),
            r == (TokenAction::Use { token: grant.access_token }),
    {
        let lifetime: u64 = match grant.expires_in {
            Some(secs) => secs,
            None => DEFAULT_LIFETIME_SECS,
        };
        let expires_at: i128 = now as i128 + (lifetime as i128 - TOKEN_EXPIRY_BUFFER_SECS as i128)
            * 1_000_000_000;
        self.state.access_token = Some(
            CachedAccessToken { value: grant.access_token.clone(), expires_at },
        );
        if grant.refresh_token.is_some() {
            self.state.refresh_token = grant.refresh_token;
        }
        TokenAction::Use { token: grant.access_token }
    }

    /// The first step to a valid access token: the cached one, or what is to be done to get one.
    pub fn ensure_token(&self, now: u64) -> (r: TokenAction)
        ensures
            self.starts(now, r),
    {
        if let Some(token) = &self.state.access_token {
            if token.expires_at > now as i128 {
                return TokenAction::Use { token: token.value.clone() };
            }
        }
        self.go_on()
    }

    /// The next step, when `event` has come at the time `now`.
    pub fn step(&mut self, event: TokenEvent, now: u64) -> (r: TokenAction)
        ensures
            old(self).stepped(event, now, *final(self), r),
    {
        match event {
            TokenEvent::Discovered(Err(e)) => TokenAction::Fail(e),
            TokenEvent::Discovered(Ok(metadata)) => {
                self.state.metadata = Some(metadata);
                self.go_on()
            },
            TokenEvent::ClientLoaded(Err(e)) => TokenAction::Fail(e),
            TokenEvent::ClientLoaded(Ok(StoredClient::Unparsable)) => TokenAction::Fail(
                OAuthError::StoredClientUnparsable,
            ),
            TokenEvent::ClientLoaded(Ok(StoredClient::Absent)) => self.go_on_registering(),
            TokenEvent::ClientLoaded(Ok(StoredClient::Found(credentials))) => {
                self.state.client_credentials = Some(credentials);
                self.go_on()
            },
            TokenEvent::Registered(Err(e)) => TokenAction::Fail(e),
            TokenEvent::Registered(Ok(credentials)) => TokenAction::StoreClient {
                key: self.storage_key("client"),
                credentials,
            },
            TokenEvent::ClientStored { credentials, stored } => {
                if stored {
                    self.state.client_credentials = Some(credentials);
                    self.go_on()
                } else {
                    TokenAction::Fail(OAuthError::ClientNotStored)
                }
            },
            TokenEvent::RefreshLoaded(Err(e)) => TokenAction::Fail(e),
            TokenEvent::RefreshLoaded(Ok(None)) => self.go_on_authorizing(),
            TokenEvent::RefreshLoaded(Ok(Some(token))) => {
                self.state.refresh_token = Some(token);
                self.go_on()
            },
            TokenEvent::Refreshed(None) => self.give_up_refresh(),
            TokenEvent::Refreshed(Some(grant)) => {
                if grant.refresh_token.is_some() {
                    TokenAction::StoreRefreshed { key: self.storage_key("refresh_token"), grant }
                } else {
                    self.take_grant(grant, now)
                }
            },
            TokenEvent::RefreshedStored { grant, stored } => {
                if stored {
                    self.take_grant(grant, now)
                } else {
                    self.give_up_refresh()
                }
            },
            TokenEvent::RefreshDeleted => self.go_on_authorizing(),
            TokenEvent::Authorized(Err(e)) => TokenAction::Fail(e),
            TokenEvent::Authorized(Ok(grant)) => {
                if grant.refresh_token.is_some() {
                    TokenAction::StoreAuthorized { key: self.storage_key("refresh_token"), grant }
                } else {
                    self.take_grant(grant, now)
                }
            },
            TokenEvent::AuthorizedStored { grant, stored } => {
                if stored {
                    self.take_grant(grant, now)
                } else {
                    TokenAction::Fail(OAuthError::RefreshTokenNotStored)
                }
            },
        }
    }
}

/// The bytes that are read of a callback.
pub const CALLBACK_BYTES: usize = 4096;

/// What the browser is told once a callback was understood.
pub fn callback_response() -> (r: &'static str)
    ensures
        r@
            == "HTTP/1.1 200 OK\r\nContent-Type: text/html\r\n\r\n<html><body><h1>Authorization successful!</h1><p>You can close this window and return to mcp-auth-proxy.</p></body></html>"@,
{
    "HTTP/1.1 200 OK\r\nContent-Type: text/html\r\n\r\n<html><body><h1>Authorization successful!</h1><p>You can close this window and return to mcp-auth-proxy.</p></body></html>"
}

/// The names and values in the query of a URL; `None` where the text is not a URL.
pub uninterp spec fn query_pairs(url: Seq<char>) -> Option<Seq<(Seq<char>, Seq<char>)>>;

/// The address of a request for authorization, or the reason why one of the endpoints is not a URL.
pub uninterp spec fn authorization_url(
    authorization_endpoint: Seq<char>,
    token_endpoint: Seq<char>,
    client_id: Seq<char>,
    redirect_uri: Seq<char>,
    scopes: Seq<Seq<char>>,
    verifier: Seq<char>,
    state: Seq<char>,
) -> Result<Seq<char>, Seq<char>>;

/// The names and values in the query of a URL (`url::Url::parse` and `url::Url::query_pairs`).
#[verifier::external_body]
fn read_query(url: &str) -> (r: Option<Vec<(String, String)>>)
    ensures
        r.deep_view() == query_pairs(url@),
{
    match url::Url::parse(url) {
        Ok(u) => Some(u.query_pairs().map(|p| (p.0.into_owned(), p.1.into_owned())).collect()),
        Err(_) => None,
    }
}

/// A fresh value that ties a callback to a request (`oauth2::CsrfToken::new_random`): random, but
/// always 16 bytes in base64 without padding, which makes 22 ASCII characters.
#[verifier::external_body]
fn random_state() -> (r: String)
    ensures
        vstd::utf8::encode_utf8(r@).len() == 22,
{
    CsrfToken::new_random().secret().clone()
}

/// A fresh PKCE verifier (`oauth2::PkceCodeChallenge::new_random_sha256`): random, but always 32
/// bytes in base64, which makes 43 ASCII characters.
#[verifier::external_body]
fn random_verifier() -> (r: String)
    ensures
        vstd::utf8::encode_utf8(r@).len() == 43,
{
    PkceCodeChallenge::new_random_sha256().1.secret().clone()
}

/// The longest request for authorization that is made, in bytes of all its texts. The address that
/// is built of them, a few times as long, then stays far below the 2^32 bytes of the longest URL.
pub const MAX_REQUEST_BYTES: u64 = 0x800_0000;

/// The bytes of `texts`, and one for each of them.
pub open spec fn scope_bytes(texts: Seq<Seq<char>>) -> nat
    decreases texts.len(),
{
    if texts.len() == 0 {
        0
    } else {
        scope_bytes(texts.drop_last()) + vstd::utf8::encode_utf8(texts.last()).len() + 1
    }
}

/// The bytes of all texts of a request for authorization.
pub open spec fn request_bytes(
    authorization_endpoint: Seq<char>,
    token_endpoint: Seq<char>,
    client_id: Seq<char>,
    redirect_uri: Seq<char>,
    scopes: Seq<Seq<char>>,
) -> nat {
    vstd::utf8::encode_utf8(authorization_endpoint).len() + vstd::utf8::encode_utf8(
        token_endpoint,
    ).len() + vstd::utf8::encode_utf8(client_id).len() + vstd::utf8::encode_utf8(redirect_uri).len()
        + scope_bytes(scopes)
}

/// `total` and the bytes of `s`, where that is no more than `MAX_REQUEST_BYTES`.
fn grow(total: Option<u64>, s: &str) -> (r: Option<u64>)
    ensures
        r == match total {
            Some(t) => if t + vstd::utf8::encode_utf8(s@).len() <= MAX_REQUEST_BYTES {
                Some((t + vstd::utf8::encode_utf8(s@).len()) as u64)
            } else {
                None
            },
            None => None,
        },
{
    match total {
        Some(t) => {
            let more: u64 = s.as_bytes().len() as u64;
            if t <= MAX_REQUEST_BYTES && more <= MAX_REQUEST_BYTES - t {
                Some(t + more)
            } else {
                None
            }
        },
        None => None,
    }
}

/// The bytes of the scopes are no fewer than those of the first ones.
proof fn lemma_scope_bytes(texts: Seq<Seq<char>>, n: int)
    requires
        0 <= n <= texts.len(),
    ensures
        scope_bytes(texts.take(n)) <= scope_bytes(texts),
    decreases texts.len(),
{
    if n == texts.len() {
        assert(texts.take(n) =~= texts);
    } else {
        lemma_scope_bytes(texts.drop_last(), n);
        assert(texts.drop_last().take(n) =~= texts.take(n));
    }
}

/// The bytes of the scopes, where they are no more than `MAX_REQUEST_BYTES`.
fn count_scopes(scopes: &Vec<String>) -> (r: Option<u64>)
    ensures
        match r {
            Some(total) => total == scope_bytes(scopes.deep_view()) && total <= MAX_REQUEST_BYTES,
            None => scope_bytes(scopes.deep_view()) > MAX_REQUEST_BYTES,
        },
{
    let ghost texts = scopes.deep_view();
    let mut total: u64 = 0;
    let mut i: usize = 0;
    assert(texts.take(0) =~= Seq::empty());
    while i < scopes.len()
        invariant
            i <= scopes@.len(),
            texts == scopes.deep_view(),
            total == scope_bytes(texts.take(i as int)),
            total <= MAX_REQUEST_BYTES,
        decreases scopes@.len() - i,
    {
        proof {
            assert(texts.take(i + 1).drop_last() =~= texts.take(i as int));
            assert(texts.take(i + 1).last() == scopes@[i as int]@);
            lemma_scope_bytes(texts, i + 1);
        }
        match grow(Some(total + 1), scopes[i].as_str()) {
            Some(t) => {
                total = t;
            },
            None => {
                return None;
            },
        }
        i += 1;
    }
    assert(texts.take(i as int) =~= texts);
    Some(total)
}

/// The address of a request for authorization with PKCE (`oauth2::Client::authorize_url` and
/// `oauth2::AuthorizationRequest::url`). The reasons why an endpoint is not a URL are those of
/// `oauth2::AuthUrl::new`, `oauth2::TokenUrl::new` and `oauth2::RedirectUrl::new`, in that order.
/// A verifier of another length than 43 to 128 bytes makes
/// `oauth2::PkceCodeChallenge::from_code_verifier_sha256` panic, and so do texts that make a URL of
/// 2^32 bytes or more `url::Url::query_pairs_mut`.
#[verifier::external_body]
fn build_authorization_url(
    authorization_endpoint: &str,
    token_endpoint: &str,
    client_id: &str,
    redirect_uri: &str,
    scopes: &Vec<String>,
    verifier: &str,
    state: &str,
) -> (r: Result<String, String>)
    requires
        43 <= vstd::utf8::encode_utf8(verifier@).len() <= 128,
        request_bytes(
            authorization_endpoint@,
            token_endpoint@,
            client_id@,
            redirect_uri@,
            scopes.deep_view(),
        ) + vstd::utf8::encode_utf8(verifier@).len() + vstd::utf8::encode_utf8(state@).len()
            <= MAX_REQUEST_BYTES,
    ensures
        match r {
            Ok(url) => authorization_url(
                authorization_endpoint@,
                token_endpoint@,
                client_id@,
                redirect_uri@,
                scopes.deep_view(),
                verifier@,
                state@,
            ) == Ok::<Seq<char>, Seq<char>>(url@),
            Err(reason) => authorization_url(
                authorization_endpoint@,
                token_endpoint@,
                client_id@,
                redirect_uri@,
                scopes.deep_view(),
                verifier@,
                state@,
            ) == Err::<Seq<char>, Seq<char>>(reason@),
        },
{
    let why = |e: oauth2::url::ParseError| e.to_string();
    let client = BasicClient::new(ClientId::new(client_id.into()))
        .set_auth_uri(AuthUrl::new(authorization_endpoint.into()).map_err(why)?)
        .set_token_uri(TokenUrl::new(token_endpoint.into()).map_err(why)?)
        .set_redirect_uri(RedirectUrl::new(redirect_uri.into()).map_err(why)?);
    let secret = PkceCodeVerifier::new(verifier.into());
    let challenge = PkceCodeChallenge::from_code_verifier_sha256(&secret);
    let scopes = scopes.iter().map(|s| Scope::new(s.into()));
    let request = client.authorize_url(|| CsrfToken::new(state.into())).add_scopes(scopes);
    Ok(request.set_pkce_challenge(challenge).url().0.into())
}

/// A request for authorization: the address to open, and what is needed when the browser comes
/// back.
#[derive(Debug)]
pub struct AuthorizationRequest {
    pub url: String,
    pub state: String,
    pub verifier: String,
}

/// What the browser brings back.
#[derive(Debug)]
pub struct Callback {
    pub code: String,
    pub state: String,
}

impl OAuthAuth {
    /// The address to open for a request for authorization, where `verifier` and `state` were
    /// drawn for it.
    pub open spec fn authorization_address(
        self,
        metadata: ServerMetadata,
        credentials: ClientCredentials,
        verifier: Seq<char>,
        state: Seq<char>,
    ) -> Result<Seq<char>, Seq<char>> {
        authorization_url(
            metadata.authorization_endpoint@,
            metadata.token_endpoint@,
            credentials.client_id@,
            callback_address(self.config.redirect_port),
            self.config.scopes.deep_view(),
            verifier,
            state,
        )
    }

    /// The bytes of all texts of a request for authorization but for what is drawn for it.
    pub open spec fn settled_bytes(
        self,
        metadata: ServerMetadata,
        credentials: ClientCredentials,
    ) -> nat {
        request_bytes(
            metadata.authorization_endpoint@,
            metadata.token_endpoint@,
            credentials.client_id@,
            callback_address(self.config.redirect_port),
            self.config.scopes.deep_view(),
        )
    }

    /// The request for authorization for which `verifier` and `state` were drawn. A request that is
    /// too long is not made.
    pub fn authorization_request(
        &self,
        metadata: &ServerMetadata,
        credentials: &ClientCredentials,
        verifier: String,
        state: String,
    ) -> (r: Result<AuthorizationRequest, OAuthError>)
        requires
            43 <= vstd::utf8::encode_utf8(verifier@).len() <= 128,
        ensures
            if self.settled_bytes(*metadata, *credentials) + vstd::utf8::encode_utf8(
                verifier@,
            ).len() + vstd::utf8::encode_utf8(state@).len() > MAX_REQUEST_BYTES {
                r == Err::<AuthorizationRequest, OAuthError>(OAuthError::RequestTooLong)
            } else {
                match self.authorization_address(*metadata, *credentials, verifier@, state@) {
                    Ok(url) => r matches Ok(request) && request.url@ == url && request.state
                        == state && request.verifier == verifier,
                    Err(reason) => r matches Err(OAuthError::InvalidUrl { reason: words }) && words@
                        == reason,
                }
            },
    {
        let back = self.redirect_uri();
        let mut total: Option<u64> = count_scopes(&self.config.scopes);
        total = grow(total, metadata.authorization_endpoint.as_str());
        total = grow(total, metadata.token_endpoint.as_str());
        total = grow(total, credentials.client_id.as_str());
        total = grow(total, back.as_str());
        total = grow(total, verifier.as_str());
        total = grow(total, state.as_str());
        if total.is_none() {
            return Err(OAuthError::RequestTooLong);
        }
        let built = build_authorization_url(
            metadata.authorization_endpoint.as_str(),
            metadata.token_endpoint.as_str(),
            credentials.client_id.as_str(),
            back.as_str(),
            &self.config.scopes,
            verifier.as_str(),
            state.as_str(),
        );
        match built {
            Ok(url) => Ok(AuthorizationRequest { url, state, verifier }),
            Err(reason) => Err(OAuthError::InvalidUrl { reason }),
        }
    }

    /// Opens the PKCE authorization code flow, with a verifier and a state that are drawn at
    /// random.
    pub fn authorize(&self, metadata: &ServerMetadata, credentials: &ClientCredentials) -> (r:
        Result<AuthorizationRequest, OAuthError>)
        ensures
            match r {
                Ok(request) => {
                    &&& self.settled_bytes(*metadata, *credentials) + 43 + 22 <= MAX_REQUEST_BYTES
                    &&& vstd::utf8::encode_utf8(request.verifier@).len() == 43
                    &&& vstd::utf8::encode_utf8(request.state@).len() == 22
                    &&& self.authorization_address(
                        *metadata,
                        *credentials,
                        request.verifier@,
                        request.state@,
                    ) == Ok::<Seq<char>, Seq<char>>(request.url@)
                },
                Err(e) => if self.settled_bytes(*metadata, *credentials) + 43 + 22
                    > MAX_REQUEST_BYTES {
                    e == OAuthError::RequestTooLong
                } else {
                    e matches OAuthError::InvalidUrl { reason } && exists|
                        verifier: Seq<char>,
                        state: Seq<char>,
                    | #[trigger]
                        self.authorization_address(*metadata, *credentials, verifier, state)
                            == Err::<Seq<char>, Seq<char>>(reason@)
                },
            },
    {
        let verifier = random_verifier();
        let state = random_state();
        let ghost drawn = (verifier@, state@);
        let r = self.authorization_request(metadata, credentials, verifier, state);
        assert(r is Err && r->Err_0 is InvalidUrl ==> self.authorization_address(
            *metadata,
            *credentials,
            drawn.0,
            drawn.1,
        ) == Err::<Seq<char>, Seq<char>>(r->Err_0->InvalidUrl_reason@));
        r
    }
}

impl AuthorizationRequest {
    /// What `callback` comes to: its code, where it brings the state of this request.
    pub open spec fn accepts(self, callback: Callback, r: Result<String, OAuthError>) -> bool {
        if callback.state@ == self.state@ {
            r == Ok::<String, OAuthError>(callback.code)
        } else {
            r matches Err(OAuthError::StateMismatch)
        }
    }

    /// The code to exchange, where the callback belongs to this request.
    pub fn accept(&self, callback: Callback) -> (r: Result<String, OAuthError>)
        ensures
            self.accepts(callback, r),
    {
        if text::same_text(callback.state.as_str(), self.state.as_str()) {
            Ok(callback.code)
        } else {
            Err(OAuthError::StateMismatch)
        }
    }
}

/// The value of the first pair with the name `name`.
pub open spec fn first_value(pairs: Seq<(Seq<char>, Seq<char>)>, name: Seq<char>) -> Option<
    Seq<char>,
>
    decreases pairs.len(),
{
    if pairs.len() == 0 {
        None
    } else if pairs[0].0 == name {
        Some(pairs[0].1)
    } else {
        first_value(pairs.drop_first(), name)
    }
}

/// The value of the first pair with the name `name`.
fn find_value(pairs: &Vec<(String, String)>, name: &str) -> (r: Option<String>)
    ensures
        r.deep_view() == first_value(pairs.deep_view(), name@),
{
    let ghost all = pairs.deep_view();
    let mut i: usize = 0;
    assert(all.skip(0) =~= all);
    while i < pairs.len()
        invariant
            i <= pairs@.len(),
            all == pairs.deep_view(),
            first_value(all, name@) == first_value(all.skip(i as int), name@),
        decreases pairs@.len() - i,
    {
        assert(all.skip(i as int)[0] == all[i as int]);
        assert(all.skip(i as int).drop_first() =~= all.skip(i + 1));
        if text::same_text(pairs[i].0.as_str(), name) {
            return Some(pairs[i].1.clone());
        }
        i += 1;
    }
    None
}

/// The address that the request line of a callback names: its second word.
pub open spec fn callback_path(request: Seq<char>) -> Result<Seq<char>, OAuthError> {
    match text::first_line(request) {
        None => Err(OAuthError::EmptyCallback),
        Some(line) => if text::words(line).len() < 2 {
            Err(OAuthError::MalformedCallback)
        } else {
            Ok(text::words(line)[1])
        },
    }
}

/// What a callback brings, where `pairs` are the names and values in its query, if it has a URL.
pub open spec fn brought(
    pairs: Option<Seq<(Seq<char>, Seq<char>)>>,
    r: Result<Callback, OAuthError>,
) -> bool {
    match pairs {
        None => r == Err::<Callback, OAuthError>(OAuthError::CallbackUrl),
        Some(pairs) => match (first_value(pairs, "code"@), first_value(pairs, "state"@)) {
            (None, _) => r == Err::<Callback, OAuthError>(OAuthError::MissingCode),
            (Some(_), None) => r == Err::<Callback, OAuthError>(OAuthError::MissingState),
            (Some(code), Some(state)) => r matches Ok(callback) && callback.code@ == code
                && callback.state@ == state,
        },
    }
}

/// Reads a callback from the names and values in its query.
pub fn callback_from_pairs(pairs: Option<&Vec<(String, String)>>) -> (r: Result<
    Callback,
    OAuthError,
>)
    ensures
        brought(
            match pairs {
                Some(p) => Some(p.deep_view()),
                None => None,
            },
            r,
        ),
{
    match pairs {
        None => Err(OAuthError::CallbackUrl),
        Some(pairs) => match find_value(pairs, "code") {
            None => Err(OAuthError::MissingCode),
            Some(code) => match find_value(pairs, "state") {
                None => Err(OAuthError::MissingState),
                Some(state) => Ok(Callback { code, state }),
            },
        },
    }
}

/// What the text of the browser's request comes to.
pub open spec fn read_as(request: Seq<char>, r: Result<Callback, OAuthError>) -> bool {
    match callback_path(request) {
        Err(e) => r == Err::<Callback, OAuthError>(e),
        Ok(path) => brought(query_pairs("http://127.0.0.1"@ + path), r),
    }
}

/// Reads a callback from the text of the browser's request.
pub fn callback_from_text(request: &str) -> (r: Result<Callback, OAuthError>)
    ensures
        read_as(request@, r),
{
    let line = match text::first_line_of(request) {
        None => {
            return Err(OAuthError::EmptyCallback);
        },
        Some(line) => line,
    };
    let words = text::words_of(line);
    if words.len() < 2 {
        return Err(OAuthError::MalformedCallback);
    }
    let address = "http://127.0.0.1".to_owned().concat(words[1].as_str());
    assert(words.deep_view()[1] == words@[1]@);
    match read_query(address.as_str()) {
        Some(pairs) => callback_from_pairs(Some(&pairs)),
        None => callback_from_pairs(None),
    }
}

/// Reads a callback from what the browser sent.
pub fn wait_for_callback(received: &[u8]) -> (r: Result<Callback, OAuthError>)
    ensures
        read_as(text::utf8_lossy(received@), r),
{
    let request = text::lossy_text(received);
    callback_from_text(request.as_str())
}

/// `event` is what comes of `action`.
pub open spec fn answers(action: TokenAction, event: TokenEvent) -> bool {
    match action {
        TokenAction::Use { .. } => false,
        TokenAction::Discover { .. } => event is Discovered,
        TokenAction::LoadClient { .. } => event is ClientLoaded,
        TokenAction::Register { .. } => event is Registered,
        TokenAction::StoreClient { credentials, .. } => event matches TokenEvent::ClientStored {
            credentials: kept,
            ..
        } && kept == credentials,
        TokenAction::LoadRefresh { .. } => event is RefreshLoaded,
        TokenAction::Refresh { .. } => event is Refreshed,
        TokenAction::StoreRefreshed { grant, .. } => event matches TokenEvent::RefreshedStored {
            grant: kept,
            ..
        } && kept == grant,
        TokenAction::DeleteRefresh { .. } => event is RefreshDeleted,
        TokenAction::Authorize { .. } => event is Authorized,
        TokenAction::StoreAuthorized { grant, .. } => event matches TokenEvent::AuthorizedStored {
            grant: kept,
            ..
        } && kept == grant,
        TokenAction::Fail(_) => false,
    }
}

/// A bound on the number of actions that follow `action`.
pub open spec fn steps_left(action: TokenAction) -> nat {
    match action {
        TokenAction::Discover { .. } => 10,
        TokenAction::LoadClient { .. } => 9,
        TokenAction::Register { .. } => 8,
        TokenAction::StoreClient { .. } => 7,
        TokenAction::LoadRefresh { .. } => 6,
        TokenAction::Refresh { .. } => 5,
        TokenAction::StoreRefreshed { .. } => 4,
        TokenAction::DeleteRefresh { .. } => 3,
        TokenAction::Authorize { .. } => 2,
        TokenAction::StoreAuthorized { .. } => 1,
        TokenAction::Use { .. } => 0,
        TokenAction::Fail(_) => 0,
    }
}

impl OAuthAuth {
    /// All is known that `action` builds on.
    pub open spec fn ready_for(self, action: TokenAction) -> bool {
        match action {
            TokenAction::Use { .. } => true,
            TokenAction::Discover { .. } => true,
            TokenAction::Fail(_) => true,
            TokenAction::LoadClient { .. } => self.state.metadata is Some,
            TokenAction::Register { .. } => self.state.metadata is Some,
            TokenAction::StoreClient { .. } => self.state.metadata is Some,
            _ => self.state.metadata is Some && self.state.client_credentials is Some,
        }
    }
}

/// Every run ends: what follows an action is always nearer to the end, whatever comes of the
/// action, and builds only on what is known by then.
pub proof fn law_token_steps_end(
    before: OAuthAuth,
    action: TokenAction,
    event: TokenEvent,
    now: u64,
    after: OAuthAuth,
    next: TokenAction,
)
    requires
        before.ready_for(action),
        answers(action, event),
        before.stepped(event, now, after, next),
    ensures
        steps_left(next) < steps_left(action),
        after.ready_for(next),
{
}

/// The first action builds only on what is known.
pub proof fn law_first_action_ready(auth: OAuthAuth, action: TokenAction)
    requires
        auth.goes_on(action),
    ensures
        auth.ready_for(action),
{
}

/// A step leads to the use of a token only where the authorization server has just granted it,
/// and that token is then cached.
pub proof fn law_used_token_was_granted(
    before: OAuthAuth,
    event: TokenEvent,
    now: u64,
    after: OAuthAuth,
    token: String,
)
    requires
        before.stepped(event, now, after, TokenAction::Use { token }),
    ensures
        after.state.access_token is Some,
        after.state.access_token->0.value == token,
        after.state.access_token->0.expires_at == usable_until(
            now,
            match event {
                TokenEvent::Refreshed(Some(grant)) => grant.expires_in,
                TokenEvent::RefreshedStored { grant, .. } => grant.expires_in,
                TokenEvent::Authorized(Ok(grant)) => grant.expires_in,
                TokenEvent::AuthorizedStored { grant, .. } => grant.expires_in,
                _ => None,
            },
        ),
        match event {
            TokenEvent::Refreshed(Some(grant)) => token == grant.access_token,
            TokenEvent::RefreshedStored { grant, stored } => stored && token == grant.access_token,
            TokenEvent::Authorized(Ok(grant)) => token == grant.access_token,
            TokenEvent::AuthorizedStored { grant, stored } => stored && token == grant.access_token,
            _ => false,
        },
{
}

/// A granted token is used without another step until five minutes before its end, and not from
/// then on.
pub proof fn law_granted_token_is_cached(state: OAuthState, grant: Grant, now: u64, later: u64)
    ensures
        state.granted(grant, now).usable(later) == if later < usable_until(now, grant.expires_in) {
            Some(grant.access_token)
        } else {
            None
        },
{
}

/// A failure changes nothing of what is known.
pub proof fn law_failure_keeps_state(
    before: OAuthAuth,
    event: TokenEvent,
    now: u64,
    after: OAuthAuth,
    e: OAuthError,
)
    requires
        before.stepped(event, now, after, TokenAction::Fail(e)),
    ensures
        after == before,
{
}

/// When a refresh has failed, or its new refresh token could not be stored, the old refresh token
/// is forgotten, here and in the storage, and the user is asked to authorize.
pub proof fn law_failed_refresh_reauthorizes(
    before: OAuthAuth,
    event: TokenEvent,
    now: u64,
    after: OAuthAuth,
    action: TokenAction,
    last: OAuthAuth,
    next: TokenAction,
)
    requires
        event == TokenEvent::Refreshed(None) || (event matches TokenEvent::RefreshedStored {
            stored,
            ..
        } && !stored),
        before.state.metadata is Some,
        before.state.client_credentials is Some,
        before.stepped(event, now, after, action),
        after.stepped(TokenEvent::RefreshDeleted, now, last, next),
    ensures
        after.state.refresh_token is None,
        action matches TokenAction::DeleteRefresh { key } && key@ == before.key("refresh_token"@),
        last == after,
        next == (TokenAction::Authorize {
            metadata: before.state.metadata->0,
            credentials: before.state.client_credentials->0,
        }),
{
}

/// Without an endpoint for it no registration is asked for: the flow fails and nothing is stored.
pub proof fn law_no_endpoint_no_registration(
    before: OAuthAuth,
    now: u64,
    after: OAuthAuth,
    action: TokenAction,
)
    requires
        before.state.metadata is Some,
        before.state.metadata->0.registration_endpoint is None,
        before.stepped(TokenEvent::ClientLoaded(Ok(StoredClient::Absent)), now, after, action),
    ensures
        action == TokenAction::Fail(OAuthError::NoRegistrationEndpoint),
        after == before,
{
}

/// A registration counts only where the server's answer is one of success and its credentials have
/// been stored: these credentials are then known, and otherwise the flow fails and none are.
pub proof fn law_registration_is_stored(
    before: OAuthAuth,
    status: u16,
    status_text: String,
    body: String,
    parsed: Option<ClientCredentials>,
    stored: bool,
    now: u64,
    between: OAuthAuth,
    action: TokenAction,
    after: OAuthAuth,
    next: TokenAction,
)
    requires
        before.stepped(
            TokenEvent::Registered(registration_outcome(status, status_text, body, parsed)),
            now,
            between,
            action,
        ),
        action matches TokenAction::StoreClient { credentials, .. } ==> between.stepped(
            TokenEvent::ClientStored { credentials, stored },
            now,
            after,
            next,
        ),
    ensures
        between == before,
        if 200 <= status < 300 && parsed is Some {
            &&& action matches TokenAction::StoreClient { key, credentials } && key@ == before.key(
                "client"@,
            ) && credentials == parsed->0
            &&& if stored {
                after.state.client_credentials == parsed
            } else {
                next == TokenAction::Fail(OAuthError::ClientNotStored) && after == before
            }
        } else {
            action is Fail
        },
{
}

/// What is stored for one upstream, and what is stored of one kind, never stands under the key of
/// another.
pub proof fn law_storage_keys_distinct(
    upstream: Seq<char>,
    suffix: Seq<char>,
    other_upstream: Seq<char>,
    other_suffix: Seq<char>,
)
    requires
        suffix == "client"@ || suffix == "refresh_token"@,
        other_suffix == "client"@ || other_suffix == "refresh_token"@,
        stored_under(upstream, suffix) == stored_under(other_upstream, other_suffix),
    ensures
        upstream == other_upstream,
        suffix == other_suffix,
{
    reveal_strlit("client");
    reveal_strlit("refresh_token");
    reveal_strlit("oauth_");
    reveal_strlit("_");
    let key = stored_under(upstream, suffix);
    let other = stored_under(other_upstream, other_suffix);
    assert(key[key.len() - 1] == suffix[suffix.len() - 1]);
    assert(other[other.len() - 1] == other_suffix[other_suffix.len() - 1]);
    assert(suffix == other_suffix);
    assert(key.subrange(6, (6 + upstream.len()) as int) =~= upstream);
    assert(other.subrange(6, (6 + other_upstream.len()) as int) =~= other_upstream);
}

/// The address of the metadata is the address of the server, without the slashes at its end, and
/// the well-known path behind one slash.
pub proof fn law_discovery_address(server_url: Seq<char>, n: nat)
    requires
        server_url.len() == 0 || server_url.last() != '/',
    ensures
        well_known(server_url + text::repeated('/', n)) == server_url
            + "/.well-known/oauth-authorization-server"@,
        well_known(server_url + text::repeated('/', n)) == well_known(server_url),
        well_known(server_url).take(server_url.len() as int) == server_url,
        well_known(server_url)[server_url.len() as int] == '/',
        well_known(server_url)[server_url.len() as int + 1] == '.',
{
    reveal_strlit("/.well-known/oauth-authorization-server");
    text::law_strip(server_url, '/', n);
    text::law_strip(server_url, '/', 0);
    assert(server_url + text::repeated('/', 0) =~= server_url);
    assert(well_known(server_url).take(server_url.len() as int) =~= server_url);
}

/// The browser is sent back to this machine, to the port that the digits after the host name.
pub proof fn law_callback_address(port: u16)
    ensures
        callback_address(port).take(17) == "http://127.0.0.1:"@,
        callback_address(port).skip(callback_address(port).len() - 9) == "/callback"@,
        text::is_decimal(callback_address(port).subrange(17, callback_address(port).len() - 9)),
        text::number_of(callback_address(port).subrange(17, callback_address(port).len() - 9))
            == port,
{
    reveal_strlit("http://127.0.0.1:");
    reveal_strlit("/callback");
    text::law_decimal(port as nat);
    let address = callback_address(port);
    assert(address.take(17) =~= "http://127.0.0.1:"@);
    assert(address.skip(address.len() - 9) =~= "/callback"@);
    assert(address.subrange(17, address.len() - 9) =~= text::decimal(port as nat));
}

/// What is stored for an upstream stands under a key that names the upstream and then what it is.
pub proof fn law_storage_key(upstream: Seq<char>, suffix: Seq<char>)
    ensures
        stored_under(upstream, suffix).take(6) == "oauth_"@,
        stored_under(upstream, suffix).subrange(6, 6int + upstream.len()) == upstream,
        stored_under(upstream, suffix)[6int + upstream.len()] == '_',
        stored_under(upstream, suffix).skip(7int + upstream.len()) == suffix,
{
    reveal_strlit("oauth_");
    reveal_strlit("_");
    let key = stored_under(upstream, suffix);
    assert(key.take(6) =~= "oauth_"@);
    assert(key.subrange(6, 6int + upstream.len()) =~= upstream);
    assert(key.skip(7int + upstream.len()) =~= suffix);
}

/// An answer of the authorization server counts exactly when its status is one of success and its
/// body could be read; a refusal is told with the status and the body of the answer.
pub proof fn law_only_success_counts(
    status: u16,
    status_text: String,
    body: String,
    metadata: Option<ServerMetadata>,
    credentials: Option<ClientCredentials>,
)
    ensures
        discovery_outcome(status, status_text, body, metadata) is Ok <==> status / 100 == 2
            && metadata is Some,
        discovery_outcome(status, status_text, body, metadata) matches Ok(m) ==> metadata == Some(
            m,
        ),
        status / 100 == 2 && metadata is None ==> discovery_outcome(
            status,
            status_text,
            body,
            metadata,
        ) == Err::<ServerMetadata, OAuthError>(OAuthError::DiscoveryUnparsable),
        status / 100 != 2 ==> (discovery_outcome(status, status_text, body, metadata) matches Err(
            e,
        ) && e.words() == "OAuth discovery failed with status "@ + status_text@ + ": "@ + body@),
        registration_outcome(status, status_text, body, credentials) is Ok <==> status / 100 == 2
            && credentials is Some,
        registration_outcome(status, status_text, body, credentials) matches Ok(c)
            ==> credentials == Some(c),
        status / 100 == 2 && credentials is None ==> registration_outcome(
            status,
            status_text,
            body,
            credentials,
        ) == Err::<ClientCredentials, OAuthError>(OAuthError::RegistrationUnparsable),
        status / 100 != 2 ==> (registration_outcome(
            status,
            status_text,
            body,
            credentials,
        ) matches Err(e) && e.words() == "DCR failed with status "@ + status_text@ + ": "@ + body@),
{
}

/// A token that was granted for `secs` seconds is used for as long, less five minutes, and one
/// without a lifetime for 55 minutes; a token that was granted for less is not used again.
pub proof fn law_token_lifetime(state: OAuthState, grant: Grant, now: u64, later: u64, secs: u64)
    requires
        grant.expires_in == Some(secs) || grant.expires_in is None && secs == 3600,
    ensures
        later < now + (secs - 300) * 1_000_000_000 ==> state.granted(grant, now).usable(later)
            == Some(grant.access_token),
        later >= now + (secs - 300) * 1_000_000_000 ==> state.granted(grant, now).usable(later)
            is None,
{
}

/// The refresh token of a grant replaces the one before, a grant without one leaves that as it was,
/// and no grant changes what is known of the server and the client.
pub proof fn law_grant_keeps_the_rest(state: OAuthState, grant: Grant, now: u64)
    ensures
        grant.refresh_token is Some ==> state.granted(grant, now).refresh_token
            == grant.refresh_token,
        grant.refresh_token is None ==> state.granted(grant, now).refresh_token
            == state.refresh_token,
        state.granted(grant, now).metadata == state.metadata,
        state.granted(grant, now).client_credentials == state.client_credentials,
{
}

/// A cached token is used exactly for as long as its time has not come; only then is anything else
/// done to get one.
pub proof fn law_cached_token_comes_first(auth: OAuthAuth, now: u64, action: TokenAction)
    requires
        auth.starts(now, action),
    ensures
        action is Use <==> auth.state.access_token is Some && auth.state.access_token->0.expires_at
            > now,
        action is Use ==> action->token == auth.state.access_token->0.value,
        !(action is Use) ==> auth.goes_on(action),
{
}

/// What is not known yet is asked for, in this order: the server, the client, the refresh token.
/// Once all is known, the refresh token is traded.
pub proof fn law_unknown_is_asked_for(auth: OAuthAuth, action: TokenAction)
    requires
        auth.goes_on(action),
    ensures
        auth.state.metadata is None <==> action is Discover,
        auth.state.metadata is Some && auth.state.client_credentials is None <==> action
            is LoadClient,
        auth.state.metadata is Some && auth.state.client_credentials is Some
            && auth.state.refresh_token is None <==> action is LoadRefresh,
        auth.state.metadata is Some && auth.state.client_credentials is Some
            && auth.state.refresh_token is Some <==> action is Refresh,
        action matches TokenAction::Discover { url } ==> url@ == well_known(
            auth.config.server_url@,
        ),
        action matches TokenAction::LoadClient { key } ==> key@ == "oauth_"@
            + auth.upstream_name@ + "_client"@,
        action matches TokenAction::LoadRefresh { key } ==> key@ == "oauth_"@
            + auth.upstream_name@ + "_refresh_token"@,
        action matches TokenAction::Refresh { metadata, credentials, refresh_token } ==> Some(
            metadata,
        ) == auth.state.metadata && Some(credentials) == auth.state.client_credentials && Some(
            refresh_token,
        ) == auth.state.refresh_token,
{
    lemma_keys(auth.upstream_name@);
}

/// The two keys of an upstream.
proof fn lemma_keys(upstream: Seq<char>)
    ensures
        stored_under(upstream, "client"@) == "oauth_"@ + upstream + "_client"@,
        stored_under(upstream, "refresh_token"@) == "oauth_"@ + upstream + "_refresh_token"@,
{
    reveal_strlit("_");
    reveal_strlit("client");
    reveal_strlit("_client");
    reveal_strlit("refresh_token");
    reveal_strlit("_refresh_token");
    assert("_client"@ =~= "_"@ + "client"@);
    assert("_refresh_token"@ =~= "_"@ + "refresh_token"@);
    assert(stored_under(upstream, "client"@) =~= "oauth_"@ + upstream + "_client"@);
    assert(stored_under(upstream, "refresh_token"@) =~= "oauth_"@ + upstream + "_refresh_token"@);
}

/// Each step learns what came of its action and changes nothing else of what is known: the
/// settings never, the server only when it was discovered, the client only when it was found or
/// stored, the refresh token only when it was found, granted or given up, the access token only by
/// a grant.
pub proof fn law_step_learns_one_thing(
    before: OAuthAuth,
    event: TokenEvent,
    now: u64,
    after: OAuthAuth,
    action: TokenAction,
)
    requires
        before.stepped(event, now, after, action),
    ensures
        after.upstream_name == before.upstream_name,
        after.header_name == before.header_name,
        after.config == before.config,
        after.state.metadata == match event {
            TokenEvent::Discovered(Ok(metadata)) => Some(metadata),
            _ => before.state.metadata,
        },
        after.state.client_credentials == match event {
            TokenEvent::ClientLoaded(Ok(StoredClient::Found(credentials))) => Some(credentials),
            TokenEvent::ClientStored { credentials, stored: true } => Some(credentials),
            _ => before.state.client_credentials,
        },
        action is Use || after.state.access_token == before.state.access_token,
        event matches TokenEvent::RefreshLoaded(Ok(Some(token))) ==> after.state.refresh_token
            == Some(token),
        event is Discovered || event is ClientLoaded || event is Registered || event is ClientStored
            || event is RefreshDeleted || event == TokenEvent::RefreshLoaded(Ok(None)) ==> after
            .state.refresh_token == before.state.refresh_token,
        action is DeleteRefresh ==> after.state.refresh_token is None,
{
}

/// Whatever failed outside ends the flow with its own error.
pub proof fn law_failure_is_told(
    before: OAuthAuth,
    event: TokenEvent,
    now: u64,
    after: OAuthAuth,
    action: TokenAction,
)
    requires
        before.stepped(event, now, after, action),
    ensures
        event matches TokenEvent::Discovered(Err(e)) ==> action == TokenAction::Fail(e),
        event matches TokenEvent::ClientLoaded(Err(e)) ==> action == TokenAction::Fail(e),
        event matches TokenEvent::Registered(Err(e)) ==> action == TokenAction::Fail(e),
        event matches TokenEvent::RefreshLoaded(Err(e)) ==> action == TokenAction::Fail(e),
        event matches TokenEvent::Authorized(Err(e)) ==> action == TokenAction::Fail(e),
        event == TokenEvent::ClientLoaded(Ok(StoredClient::Unparsable)) ==> action
            == TokenAction::Fail(OAuthError::StoredClientUnparsable),
        event matches TokenEvent::ClientStored { stored: false, .. } ==> action
            == TokenAction::Fail(OAuthError::ClientNotStored),
        event matches TokenEvent::AuthorizedStored { stored: false, .. } ==> action
            == TokenAction::Fail(OAuthError::RefreshTokenNotStored),
{
}

/// What was learned of the server or the client is built on at once: with a refresh token at hand
/// this is traded, and otherwise the stored one is looked up.
pub proof fn law_learned_is_built_on(
    before: OAuthAuth,
    event: TokenEvent,
    now: u64,
    after: OAuthAuth,
    action: TokenAction,
)
    requires
        before.stepped(event, now, after, action),
        (event matches TokenEvent::Discovered(Ok(_))) || (event matches TokenEvent::ClientLoaded(
            Ok(StoredClient::Found(_)),
        )) || (event matches TokenEvent::ClientStored { stored: true, .. }) || (
        event matches TokenEvent::RefreshLoaded(Ok(Some(_)))),
        after.state.metadata is Some,
    ensures
        after.state.client_credentials is None ==> (action matches TokenAction::LoadClient { key }
            && key@ == "oauth_"@ + before.upstream_name@ + "_client"@),
        after.state.client_credentials is Some && after.state.refresh_token is None ==> (
        action matches TokenAction::LoadRefresh { key } && key@ == "oauth_"@ + before.upstream_name@
            + "_refresh_token"@),
        after.state.client_credentials is Some && after.state.refresh_token is Some ==> action == (
        TokenAction::Refresh {
            metadata: after.state.metadata->0,
            credentials: after.state.client_credentials->0,
            refresh_token: after.state.refresh_token->0,
        }),
{
    lemma_keys(before.upstream_name@);
}

/// Without stored credentials the proxy registers at the endpoint of the server, under its
/// configured name, with its own address to come back to; what it is given is stored.
pub proof fn law_registration(
    before: OAuthAuth,
    event: TokenEvent,
    now: u64,
    after: OAuthAuth,
    action: TokenAction,
)
    requires
        before.stepped(event, now, after, action),
        before.state.metadata is Some,
    ensures
        event == TokenEvent::ClientLoaded(Ok(StoredClient::Absent))
            && before.state.metadata->0.registration_endpoint is Some ==> (
        action matches TokenAction::Register { endpoint, request } && Some(endpoint)
            == before.state.metadata->0.registration_endpoint && request.client_name
            == before.config.client_name && request.redirect_uris@.len() == 1
            && request.redirect_uris@[0]@ == callback_address(before.config.redirect_port)
            && request.grant_types@.len() == 2 && request.grant_types@[0]@
            == "authorization_code"@ && request.grant_types@[1]@ == "refresh_token"@
            && request.token_endpoint_auth_method@ == "client_secret_post"@),
        event matches TokenEvent::Registered(Ok(credentials)) ==> (
        action matches TokenAction::StoreClient { key, credentials: kept } && kept == credentials
            && key@ == "oauth_"@ + before.upstream_name@ + "_client"@),
{
    lemma_keys(before.upstream_name@);
    if let TokenAction::Register { endpoint, request } = action {
        let uris = request.redirect_uris.deep_view();
        let types = request.grant_types.deep_view();
        assert(uris.len() == request.redirect_uris@.len());
        assert(types.len() == request.grant_types@.len());
        if event == TokenEvent::ClientLoaded(Ok(StoredClient::Absent)) {
            assert(uris[0] == request.redirect_uris@[0]@);
            assert(types[0] == request.grant_types@[0]@);
            assert(types[1] == request.grant_types@[1]@);
        }
    }
}

/// Where there is no refresh token, or it has been deleted, the user is asked to authorize the
/// client that is known at the server that is known.
pub proof fn law_user_authorizes(
    before: OAuthAuth,
    event: TokenEvent,
    now: u64,
    after: OAuthAuth,
    action: TokenAction,
)
    requires
        event == TokenEvent::RefreshLoaded(Ok(None)) || event is RefreshDeleted,
        before.state.metadata is Some,
        before.state.client_credentials is Some,
        before.stepped(event, now, after, action),
    ensures
        after == before,
        action matches TokenAction::Authorize { metadata, credentials } && Some(metadata)
            == before.state.metadata && Some(credentials) == before.state.client_credentials,
{
}

/// A grant with a refresh token is stored before its access token is used, and one without is used
/// at once; once stored, the token of the grant is used and its refresh token is known.
pub proof fn law_grant_is_stored_first(
    before: OAuthAuth,
    grant: Grant,
    now: u64,
    after: OAuthAuth,
    action: TokenAction,
)
    ensures
        grant.refresh_token is Some && before.stepped(
            TokenEvent::Refreshed(Some(grant)),
            now,
            after,
            action,
        ) ==> after == before && (action matches TokenAction::StoreRefreshed { key, grant: kept }
            && kept == grant && key@ == "oauth_"@ + before.upstream_name@ + "_refresh_token"@),
        grant.refresh_token is Some && before.stepped(
            TokenEvent::Authorized(Ok(grant)),
            now,
            after,
            action,
        ) ==> after == before && (action matches TokenAction::StoreAuthorized { key, grant: kept }
            && kept == grant && key@ == "oauth_"@ + before.upstream_name@ + "_refresh_token"@),
        grant.refresh_token is None && (before.stepped(
            TokenEvent::Refreshed(Some(grant)),
            now,
            after,
            action,
        ) || before.stepped(TokenEvent::Authorized(Ok(grant)), now, after, action)) ==> (
        action matches TokenAction::Use { token } && token == grant.access_token)
            && after.state.refresh_token == before.state.refresh_token,
        before.stepped(TokenEvent::RefreshedStored { grant, stored: true }, now, after, action)
            || before.stepped(
            TokenEvent::AuthorizedStored { grant, stored: true },
            now,
            after,
            action,
        ) ==> (action matches TokenAction::Use { token } && token == grant.access_token) && (
        grant.refresh_token is Some ==> after.state.refresh_token == grant.refresh_token),
{
    lemma_keys(before.upstream_name@);
}

/// The bytes of a request for authorization are those of its texts, and one for each scope.
pub proof fn law_request_bytes(
    authorization_endpoint: Seq<char>,
    token_endpoint: Seq<char>,
    client_id: Seq<char>,
    redirect_uri: Seq<char>,
    scopes: Seq<Seq<char>>,
    scope: Seq<char>,
)
    ensures
        request_bytes(
            authorization_endpoint,
            token_endpoint,
            client_id,
            redirect_uri,
            Seq::empty(),
        ) == vstd::utf8::encode_utf8(authorization_endpoint).len() + vstd::utf8::encode_utf8(
            token_endpoint,
        ).len() + vstd::utf8::encode_utf8(client_id).len() + vstd::utf8::encode_utf8(
            redirect_uri,
        ).len(),
        request_bytes(
            authorization_endpoint,
            token_endpoint,
            client_id,
            redirect_uri,
            scopes.push(scope),
        ) == request_bytes(authorization_endpoint, token_endpoint, client_id, redirect_uri, scopes)
            + vstd::utf8::encode_utf8(scope).len() + 1,
{
    assert(scopes.push(scope).drop_last() =~= scopes);
}

/// A code is taken exactly from a callback that brings the state that was drawn for the request.
pub proof fn law_state_guards_the_code(
    request: AuthorizationRequest,
    callback: Callback,
    r: Result<String, OAuthError>,
)
    requires
        request.accepts(callback, r),
    ensures
        r is Ok <==> callback.state@ == request.state@,
        r matches Ok(code) ==> code == callback.code,
        r matches Err(e) ==> e == OAuthError::StateMismatch,
{
}

/// Of several values with one name the first one counts, and a value is found exactly when there is
/// one.
pub proof fn law_first_value_counts(
    pairs: Seq<(Seq<char>, Seq<char>)>,
    name: Seq<char>,
    i: int,
)
    ensures
        0 <= i < pairs.len() && pairs[i].0 == name && (forall|j: int|
            0 <= j < i ==> (#[trigger] pairs[j]).0 != name) ==> first_value(pairs, name) == Some(
            pairs[i].1,
        ),
        (forall|j: int| 0 <= j < pairs.len() ==> (#[trigger] pairs[j]).0 != name) ==> first_value(
            pairs,
            name,
        ) is None,
    decreases pairs.len(),
{
    if pairs.len() > 0 {
        let rest = pairs.drop_first();
        law_first_value_counts(rest, name, i - 1);
        assert forall|j: int| 0 <= j < rest.len() implies #[trigger] rest[j] == pairs[j + 1] by {
        }
        if forall|j: int| 0 <= j < pairs.len() ==> (#[trigger] pairs[j]).0 != name {
            assert forall|j: int| 0 <= j < rest.len() implies (#[trigger] rest[j]).0 != name by {
                assert(pairs[j + 1].0 != name);
            }
        }
        if 0 < i < pairs.len() && (forall|j: int| 0 <= j < i ==> (#[trigger] pairs[j]).0 != name) {
            assert(pairs[0].0 != name);
            assert forall|j: int| 0 <= j < i - 1 implies (#[trigger] rest[j]).0 != name by {
                assert(pairs[j + 1].0 != name);
            }
            assert(rest[i - 1] == pairs[i]);
        }
    }
}

/// The request line of a callback is a method, an address and whatever follows; the address is
/// read, and it alone.
pub proof fn law_callback_names_address(
    method: Seq<char>,
    address: Seq<char>,
    more: Seq<char>,
    rest: Seq<char>,
    r: Result<Callback, OAuthError>,
)
    requires
        method.len() > 0,
        address.len() > 0,
        forall|i: int| 0 <= i < method.len() ==> !text::whitespace(#[trigger] method[i]),
        forall|i: int| 0 <= i < address.len() ==> !text::whitespace(#[trigger] address[i]),
        !more.contains('\n'),
        more.len() > 0 && more.last() != '\r',
    ensures
        callback_path(
            (method.push(' ') + (address.push(' ') + more)).push('\n') + rest,
        ) == Ok::<Seq<char>, OAuthError>(address),
        read_as((method.push(' ') + (address.push(' ') + more)).push('\n') + rest, r) ==> brought(
            query_pairs("http://127.0.0.1"@ + address),
            r,
        ),
{
    let tail = address.push(' ') + more;
    let line = method.push(' ') + tail;
    assert(!line.contains('\n')) by {
        if line.contains('\n') {
            let k = choose|k: int| 0 <= k < line.len() && line[k] == '\n';
            if k < method.len() {
                assert(method[k] == '\n');
                assert(!text::whitespace(method[k]));
            } else if k > method.len() && k < method.len() + 1 + address.len() {
                assert(address[k - method.len() - 1] == '\n');
                assert(!text::whitespace(address[k - method.len() - 1]));
            } else if k > method.len() + 1 + address.len() {
                assert(more[k - method.len() - 2 - address.len()] == '\n');
                assert(more.contains('\n'));
            }
        }
    }
    assert(line.last() == more.last());
    text::law_first_line(line, rest);
    text::law_words(method, ' ', tail);
    text::law_words(address, ' ', more);
    text::law_words(Seq::empty(), ' ', method);
    text::law_words(Seq::empty(), ' ', address);
    assert(text::words(line) == seq![method] + (seq![address] + text::words(more)));
    assert(text::words(line)[1] == address);
}

/// An empty callback, and one whose request line has fewer than two words, is told apart.
pub proof fn law_callback_without_address(request: Seq<char>, r: Result<Callback, OAuthError>)
    requires
        read_as(request, r),
    ensures
        request.len() == 0 <==> r == Err::<Callback, OAuthError>(OAuthError::EmptyCallback),
        request.len() > 0 && !request.contains('\n') && (forall|i: int|
            0 <= i < request.len() ==> !text::whitespace(#[trigger] request[i])) ==> r == Err::<
            Callback,
            OAuthError,
        >(OAuthError::MalformedCallback),
{
    text::law_words(Seq::empty(), ' ', request);
}

/// A callback counts exactly when its address is one and holds a code and a state: the first of
/// each. What is missing is told, the code first.
pub proof fn law_callback_brings(
    pairs: Seq<(Seq<char>, Seq<char>)>,
    code: int,
    state: int,
    r: Result<Callback, OAuthError>,
)
    requires
        brought(Some(pairs), r),
        0 <= code < pairs.len() ==> pairs[code].0 == "code"@ && forall|j: int|
            0 <= j < code ==> (#[trigger] pairs[j]).0 != "code"@,
        0 <= state < pairs.len() ==> pairs[state].0 == "state"@ && forall|j: int|
            0 <= j < state ==> (#[trigger] pairs[j]).0 != "state"@,
    ensures
        0 <= code < pairs.len() && 0 <= state < pairs.len() ==> (r matches Ok(callback)
            && callback.code@ == pairs[code].1 && callback.state@ == pairs[state].1),
        (forall|j: int| 0 <= j < pairs.len() ==> (#[trigger] pairs[j]).0 != "code"@) ==> r == Err::<
            Callback,
            OAuthError,
        >(OAuthError::MissingCode),
        0 <= code < pairs.len() && (forall|j: int|
            0 <= j < pairs.len() ==> (#[trigger] pairs[j]).0 != "state"@) ==> r == Err::<
            Callback,
            OAuthError,
        >(OAuthError::MissingState),
{
    law_first_value_counts(pairs, "code"@, code);
    law_first_value_counts(pairs, "state"@, state);
}

/// The words for an error hold what it tells of: the reason, or the port in digits.
pub proof fn law_error_tells(reason: String, port: u16)
    ensures
        (OAuthError::Storage { reason }).words() == reason@,
        (OAuthError::InvalidUrl { reason }).words() == reason@,
        (OAuthError::Exchange { reason }).words() == "token exchange failed: "@ + reason@,
        (OAuthError::Bind { port }).words().take(47)
            == "failed to bind OAuth callback listener on port "@,
        text::number_of((OAuthError::Bind { port }).words().skip(47)) == port,
{
    reveal_strlit("failed to bind OAuth callback listener on port ");
    text::law_decimal(port as nat);
    let words = (OAuthError::Bind { port }).words();
    assert(words.take(47) =~= "failed to bind OAuth callback listener on port "@);
    assert(words.skip(47) =~= text::decimal(port as nat));
}

} // verus!
