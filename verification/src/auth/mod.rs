//! Authentication to the upstreams: the headers that a request is sent with.
pub mod oauth;
pub mod static_token;

use vstd::prelude::*;
use vstd::string::*;
use crate::auth::oauth::{OAuthAuth, TokenAction, TokenEvent};
use crate::auth::static_token::{StaticStep, StaticTokenAuth};
use crate::config::{AuthConfig, AuthMethod, UpstreamConfig};
use crate::settings;

verus! {

/// Authentication of outgoing requests.
pub trait AuthStrategy {
    /// The headers to inject, where they are at hand at the time `now`.
    spec fn headers(&self, now: u64) -> Option<Seq<(Seq<char>, Seq<char>)>>;

    /// Returns one or more (header-name, header-value) pairs to inject, where they are at hand at
    /// the time `now`.
    fn get_auth_headers(&self, now: u64) -> (r: Option<Vec<(String, String)>>)
        ensures
            r.deep_view() == self.headers(now),
    ;

    /// Called when upstream returns 401: no headers are at hand until they are got anew.
    fn handle_unauthorized(&mut self)
        ensures
            forall|now: u64| (#[trigger] final(self).headers(now)) is None,
    ;
}

/// One header.
fn single_header(name: &String, value: String) -> (r: Vec<(String, String)>)
    ensures
        r.deep_view() == seq![(name@, value@)],
{
    let mut headers: Vec<(String, String)> = Vec::new();
    headers.push((name.clone(), value));
    assert(headers.deep_view() =~= seq![(name@, value@)]);
    headers
}

impl AuthStrategy for StaticTokenAuth {
    open spec fn headers(&self, now: u64) -> Option<Seq<(Seq<char>, Seq<char>)>> {
        match self.usable(now) {
            Some(value) => Some(seq![(self.header_name@, value@)]),
            None => None,
        }
    }

    fn get_auth_headers(&self, now: u64) -> (r: Option<Vec<(String, String)>>) {
        match self.get_or_resolve(now) {
            StaticStep::Use { value } => Some(single_header(&self.header_name, value)),
            StaticStep::Resolve { .. } => None,
        }
    }

    fn handle_unauthorized(&mut self)
        ensures
            *final(self) == (StaticTokenAuth { cached: None, ..*old(self) }),
    {
        self.evict();
    }
}

impl AuthStrategy for OAuthAuth {
    open spec fn headers(&self, now: u64) -> Option<Seq<(Seq<char>, Seq<char>)>> {
        match self.state.usable(now) {
            Some(token) => Some(seq![(self.header_name@, "Bearer "@ + token@)]),
            None => None,
        }
    }

    fn get_auth_headers(&self, now: u64) -> (r: Option<Vec<(String, String)>>) {
        match self.ensure_token(now) {
            TokenAction::Use { token } => Some(
                single_header(&self.header_name, "Bearer ".to_owned().concat(token.as_str())),
            ),
            _ => None,
        }
    }

    fn handle_unauthorized(&mut self)
        ensures
            *final(self) == (OAuthAuth {
                state: oauth::OAuthState { access_token: None, ..old(self).state },
                ..*old(self)
            }),
    {
        self.state.access_token = None;
    }
}

/// The authentication that an upstream is configured with.
#[derive(Debug)]
pub enum PrimaryAuth {
    Static(StaticTokenAuth),
    OAuth(OAuthAuth),
}

impl PrimaryAuth {
    /// This authentication with nothing at hand; what leads to new headers is kept.
    pub open spec fn evicted(self) -> PrimaryAuth {
        match self {
            PrimaryAuth::Static(auth) => PrimaryAuth::Static(
                StaticTokenAuth { cached: None, ..auth },
            ),
            PrimaryAuth::OAuth(auth) => PrimaryAuth::OAuth(
                OAuthAuth {
                    state: oauth::OAuthState { access_token: None, ..auth.state },
                    ..auth
                },
            ),
        }
    }
}

impl AuthStrategy for PrimaryAuth {
    open spec fn headers(&self, now: u64) -> Option<Seq<(Seq<char>, Seq<char>)>> {
        match self {
            PrimaryAuth::Static(auth) => auth.headers(now),
            PrimaryAuth::OAuth(auth) => auth.headers(now),
        }
    }

    fn get_auth_headers(&self, now: u64) -> (r: Option<Vec<(String, String)>>) {
        match self {
            PrimaryAuth::Static(auth) => auth.get_auth_headers(now),
            PrimaryAuth::OAuth(auth) => auth.get_auth_headers(now),
        }
    }

    fn handle_unauthorized(&mut self)
        ensures
            *final(self) == old(self).evicted(),
    {
        match self {
            PrimaryAuth::Static(auth) => auth.handle_unauthorized(),
            PrimaryAuth::OAuth(auth) => auth.handle_unauthorized(),
        }
    }
}

/// Combines a primary auth strategy with additional static-token headers.
#[derive(Debug)]
pub struct CompositeAuth {
    pub primary: PrimaryAuth,
    pub extras: Vec<StaticTokenAuth>,
}

/// The headers of the first `n` of `extras`, where they are at hand at the time `now`.
pub open spec fn extra_headers(extras: Seq<StaticTokenAuth>, n: nat, now: u64) -> Option<
    Seq<(Seq<char>, Seq<char>)>,
>
    decreases n,
{
    if n == 0 {
        Some(Seq::empty())
    } else {
        match (extra_headers(extras, (n - 1) as nat, now), extras[n - 1].headers(now)) {
            (Some(before), Some(last)) => Some(before + last),
            _ => None,
        }
    }
}

impl CompositeAuth {
    /// This is `before` with nothing at hand; what leads to new headers is kept.
    pub open spec fn is_evicted(self, before: CompositeAuth) -> bool {
        &&& self.primary == before.primary.evicted()
        &&& self.extras@.len() == before.extras@.len()
        &&& forall|j: int|
            0 <= j < before.extras@.len() ==> #[trigger] self.extras@[j] == (StaticTokenAuth {
                cached: None,
                ..before.extras@[j]
            })
    }
}

impl AuthStrategy for CompositeAuth {
    open spec fn headers(&self, now: u64) -> Option<Seq<(Seq<char>, Seq<char>)>> {
        match (self.primary.headers(now), extra_headers(self.extras@, self.extras@.len(), now)) {
            (Some(first), Some(rest)) => Some(first + rest),
            _ => None,
        }
    }

    fn get_auth_headers(&self, now: u64) -> (r: Option<Vec<(String, String)>>) {
        let mut headers = match self.primary.get_auth_headers(now) {
            Some(headers) => headers,
            None => {
                return None;
            },
        };
        let ghost first = headers.deep_view();
        let mut i: usize = 0;
        assert(first + Seq::empty() =~= first);
        while i < self.extras.len()
            invariant
                i <= self.extras@.len(),
                self.primary.headers(now) == Some(first),
                extra_headers(self.extras@, i as nat, now) is Some,
                headers.deep_view() == first + extra_headers(self.extras@, i as nat, now)->0,
            decreases self.extras@.len() - i,
        {
            match self.extras[i].get_auth_headers(now) {
                Some(mut more) => {
                    let ghost before = headers.deep_view();
                    let ghost added = more.deep_view();
                    headers.append(&mut more);
                    assert(headers.deep_view() =~= before + added);
                    assert(before + added =~= first + (extra_headers(
                        self.extras@,
                        i as nat,
                        now,
                    )->0 + added));
                },
                None => {
                    proof {
                        lemma_extra_missing(self.extras@, (i + 1) as nat, self.extras@.len(), now);
                    }
                    return None;
                },
            }
            i += 1;
        }
        Some(headers)
    }

    fn handle_unauthorized(&mut self)
        ensures
            final(self).is_evicted(*old(self)),
    {
        self.primary.handle_unauthorized();
        let mut i: usize = 0;
        while i < self.extras.len()
            invariant
                i <= self.extras@.len(),
                self.extras@.len() == old(self).extras@.len(),
                self.primary == old(self).primary.evicted(),
                forall|j: int|
                    0 <= j < i ==> #[trigger] self.extras@[j] == (StaticTokenAuth {
                        cached: None,
                        ..old(self).extras@[j]
                    }),
                forall|j: int|
                    i <= j < self.extras@.len() ==> #[trigger] self.extras@[j] == old(
                        self,
                    ).extras@[j],
            decreases self.extras@.len() - i,
        {
            self.extras[i].handle_unauthorized();
            i += 1;
        }
    }
}

/// Where the first of the extra headers are not all at hand, more of them are not either.
proof fn lemma_extra_missing(extras: Seq<StaticTokenAuth>, n: nat, m: nat, now: u64)
    requires
        n <= m,
        extra_headers(extras, n, now) is None,
    ensures
        extra_headers(extras, m, now) is None,
    decreases m,
{
    if n < m {
        lemma_extra_missing(extras, n, (m - 1) as nat, now);
    }
}

/// A walk through the parts of an auth strategy, the primary one first and the additional ones in
/// order: the headers of the primary one have been collected where `primary_done` is set, and then
/// those of the first `extras_done` additional ones.
#[derive(Debug)]
pub struct HeaderRun {
    pub headers: Vec<(String, String)>,
    pub primary_done: bool,
    pub extras_done: usize,
}

impl HeaderRun {
    /// The part whose headers are collected next. The primary part has the number 0.
    pub open spec fn next(self) -> int {
        if self.primary_done {
            self.extras_done + 1
        } else {
            0
        }
    }

    /// Nothing has been collected.
    pub fn new() -> (r: HeaderRun)
        ensures
            r.headers@.len() == 0,
            r.next() == 0,
            r.extras_done == 0,
    {
        HeaderRun { headers: Vec::new(), primary_done: false, extras_done: 0 }
    }
}

/// What came of what a part asked for.
#[derive(Debug)]
pub enum AuthEvent {
    /// The credential was resolved.
    Resolved { raw: String },
    /// A step to an access token was made.
    Token(TokenEvent),
}

/// What is to be done for the headers.
#[derive(Debug)]
pub enum AuthNeed {
    /// Nothing: all headers have been collected.
    Nothing,
    /// Resolve the credential.
    Resolve { credential_ref: String },
    /// Make a step to an access token.
    Token { action: TokenAction },
}

impl CompositeAuth {
    /// The headers of the part `i`, where they are at hand at the time `now`.
    pub open spec fn part_headers(self, i: int, now: u64) -> Option<Seq<(Seq<char>, Seq<char>)>> {
        if i == 0 {
            self.primary.headers(now)
        } else {
            self.extras@[i - 1].headers(now)
        }
    }

    /// The headers of the parts from `from` up to `to`, which are at hand at the time `now`.
    pub open spec fn parts_headers(self, from: int, to: int, now: u64) -> Seq<
        (Seq<char>, Seq<char>),
    >
        decreases to - from,
    {
        if to <= from {
            Seq::empty()
        } else {
            self.parts_headers(from, to - 1, now) + self.part_headers(to - 1, now)->0
        }
    }

    /// The part `i` is the first from `from` on whose headers are not at hand at the time `now`;
    /// where there is none, `i` is the number of parts.
    pub open spec fn stops_at(self, from: int, i: int, now: u64) -> bool {
        &&& from <= i
        &&& i <= self.extras@.len() + 1 || i == from
        &&& forall|j: int| from <= j < i ==> (#[trigger] self.part_headers(j, now)) is Some
        &&& i <= self.extras@.len() ==> self.part_headers(i, now) is None
    }

    /// What the part `i` needs.
    pub open spec fn part_needs(self, i: int, need: AuthNeed) -> bool {
        if i > self.extras@.len() {
            need is Nothing
        } else if i > 0 {
            need == (AuthNeed::Resolve { credential_ref: self.extras@[i - 1].credential_ref })
        } else {
            match self.primary {
                PrimaryAuth::Static(auth) => need == (AuthNeed::Resolve {
                    credential_ref: auth.credential_ref,
                }),
                PrimaryAuth::OAuth(auth) => need matches AuthNeed::Token { action } && auth.goes_on(
                    action,
                ),
            }
        }
    }

    /// What a walk comes to at the time `now`.
    pub open spec fn collects(
        self,
        run: HeaderRun,
        now: u64,
        run_after: HeaderRun,
        need: AuthNeed,
    ) -> bool {
        &&& self.stops_at(run.next(), run_after.next(), now)
        &&& run_after.headers.deep_view() == run.headers.deep_view() + self.parts_headers(
            run.next(),
            run_after.next(),
            now,
        )
        &&& self.part_needs(run_after.next(), need)
    }

    /// Collects the headers that are at hand at the time `now`, up to the first part that needs
    /// something.
    pub fn collect(&self, run: &mut HeaderRun, now: u64) -> (r: AuthNeed)
        ensures
            self.collects(*old(run), now, *final(run), r),
    {
        let ghost from = run.next();
        let ghost before = run.headers.deep_view();
        assert(before + Seq::empty() =~= before);
        if !run.primary_done {
            match self.primary.get_auth_headers(now) {
                Some(mut more) => {
                    let ghost added = more.deep_view();
                    run.headers.append(&mut more);
                    assert(run.headers.deep_view() =~= before + added);
                    assert(Seq::empty() + added =~= added);
                    assert(self.parts_headers(0, 0, now) =~= Seq::empty());
                    assert(self.parts_headers(0, 1, now) =~= added);
                    run.primary_done = true;
                    run.extras_done = 0;
                },
                None => {
                    return match &self.primary {
                        PrimaryAuth::Static(auth) => AuthNeed::Resolve {
                            credential_ref: auth.credential_ref.clone(),
                        },
                        PrimaryAuth::OAuth(auth) => AuthNeed::Token {
                            action: auth.ensure_token(now),
                        },
                    };
                },
            }
        }
        while run.extras_done < self.extras.len()
            invariant
                run.primary_done,
                from <= run.next(),
                run.next() <= self.extras@.len() + 1 || run.next() == from,
                from == old(run).next(),
                before == old(run).headers.deep_view(),
                forall|j: int|
                    from <= j < run.next() ==> (#[trigger] self.part_headers(j, now)) is Some,
                run.headers.deep_view() == before + self.parts_headers(from, run.next(), now),
            decreases self.extras@.len() - run.extras_done,
        {
            let i: usize = run.extras_done;
            match self.extras[i].get_auth_headers(now) {
                Some(mut more) => {
                    let ghost collected = run.headers.deep_view();
                    let ghost added = more.deep_view();
                    assert(Some(added) == self.part_headers(i + 1, now));
                    run.headers.append(&mut more);
                    assert(run.headers.deep_view() =~= collected + added);
                    assert(collected + added =~= before + (self.parts_headers(from, i + 1, now)
                        + added));
                    run.extras_done = i + 1;
                },
                None => {
                    assert(self.part_headers(i + 1, now) is None);
                    return AuthNeed::Resolve { credential_ref: self.extras[i].credential_ref.clone() };
                },
            }
        }
        AuthNeed::Nothing
    }

    /// What becomes of `self` and of a walk when `event` has come at the time `now`, and the next
    /// step to an access token, if there is one. An event that the next part did not ask for
    /// changes nothing.
    pub open spec fn supplied(
        self,
        run: HeaderRun,
        event: AuthEvent,
        now: u64,
        after: CompositeAuth,
        run_after: HeaderRun,
        r: Option<TokenAction>,
    ) -> bool {
        let idle = after == self && run_after == run && r is None;
        let collected = |name: Seq<char>, value: Seq<char>|
            {
                &&& run_after.next() == run.next() + 1
                &&& run_after.headers.deep_view() == run.headers.deep_view().push((name, value))
                &&& r is None
            };
        match event {
            AuthEvent::Resolved { raw } => if run.next() == 0 {
                match self.primary {
                    PrimaryAuth::Static(auth) => {
                        let value = static_token::header_value(auth.prefix.deep_view(), raw@);
                        &&& collected(auth.header_name@, value)
                        &&& after.extras == self.extras
                        &&& after.primary matches PrimaryAuth::Static(renewed)
                        &&& renewed.renews(auth, value, now)
                    },
                    PrimaryAuth::OAuth(_) => idle,
                }
            } else if run.next() <= self.extras@.len() {
                let i = run.next() - 1;
                let auth = self.extras@[i];
                let value = static_token::header_value(auth.prefix.deep_view(), raw@);
                &&& collected(auth.header_name@, value)
                &&& after.primary == self.primary
                &&& after.extras@ == self.extras@.update(i, after.extras@[i])
                &&& after.extras@[i].renews(auth, value, now)
            } else {
                idle
            },
            AuthEvent::Token(event) => match self.primary {
                PrimaryAuth::OAuth(auth) => if run.next() == 0 {
                    &&& after.extras == self.extras
                    &&& after.primary matches PrimaryAuth::OAuth(renewed)
                    &&& match r {
                        Some(action) => auth.stepped(event, now, renewed, action) && !(
                        action is Use) && run_after == run,
                        None => exists|token: String| #[trigger]
                            auth.stepped(event, now, renewed, TokenAction::Use { token })
                                && collected(auth.header_name@, "Bearer "@ + token@),
                    }
                } else {
                    idle
                },
                PrimaryAuth::Static(_) => idle,
            },
        }
    }

    /// Takes in what came of what the next part of a walk asked for.
    pub fn supply(&mut self, run: &mut HeaderRun, event: AuthEvent, now: u64) -> (r: Option<
        TokenAction,
    >)
        ensures
            old(self).supplied(*old(run), event, now, *final(self), *final(run), r),
    {
        let ghost before = run.headers.deep_view();
        match event {
            AuthEvent::Resolved { raw } => {
                if !run.primary_done {
                    if let PrimaryAuth::Static(auth) = &mut self.primary {
                        let value = auth.store_resolved(raw.as_str(), now);
                        run.headers.push((auth.header_name.clone(), value));
                        run.primary_done = true;
                        run.extras_done = 0;
                        assert(run.headers.deep_view() =~= before.push(
                            run.headers.deep_view().last(),
                        ));
                    }
                } else if run.extras_done < self.extras.len() {
                    let i: usize = run.extras_done;
                    let value = self.extras[i].store_resolved(raw.as_str(), now);
                    run.headers.push((self.extras[i].header_name.clone(), value));
                    run.extras_done = i + 1;
                    assert(run.headers.deep_view() =~= before.push(run.headers.deep_view().last()));
                }
                None
            },
            AuthEvent::Token(event) => {
                if run.primary_done {
                    return None;
                }
                if let PrimaryAuth::OAuth(auth) = &mut self.primary {
                    let action = auth.step(event, now);
                    match action {
                        TokenAction::Use { token } => {
                            let value = "Bearer ".to_owned().concat(token.as_str());
                            run.headers.push((auth.header_name.clone(), value));
                            run.primary_done = true;
                            run.extras_done = 0;
                            assert(run.headers.deep_view() =~= before.push(
                                run.headers.deep_view().last(),
                            ));
                            None
                        },
                        _ => Some(action),
                    }
                } else {
                    None
                }
            },
        }
    }
}

/// A walk on which nothing is needed collects the headers of the strategy: those of the primary
/// part first, then those of the additional ones in the order in which they are configured.
pub proof fn law_walk_collects_headers(auth: CompositeAuth, now: u64)
    requires
        auth.stops_at(0, auth.extras@.len() as int + 1, now),
    ensures
        auth.headers(now) == Some(auth.parts_headers(0, auth.extras@.len() as int + 1, now)),
{
    lemma_parts_are_extras(auth, auth.extras@.len(), now);
    assert(auth.part_headers(0, now) is Some);
}

/// The first parts are the primary one and the first additional ones.
proof fn lemma_parts_are_extras(auth: CompositeAuth, n: nat, now: u64)
    requires
        n <= auth.extras@.len(),
        forall|j: int| 0 <= j <= n ==> (#[trigger] auth.part_headers(j, now)) is Some,
    ensures
        extra_headers(auth.extras@, n, now) is Some,
        auth.parts_headers(0, n as int + 1, now) == auth.primary.headers(now)->0 + extra_headers(
            auth.extras@,
            n,
            now,
        )->0,
    decreases n,
{
    assert(auth.part_headers(n as int, now) is Some);
    if n == 0 {
        assert(auth.parts_headers(0, 0, now) =~= Seq::empty());
        assert(auth.parts_headers(0, 1, now) =~= auth.primary.headers(now)->0);
        assert(extra_headers(auth.extras@, 0, now)->0 =~= Seq::empty());
    } else {
        lemma_parts_are_extras(auth, (n - 1) as nat, now);
        let before = extra_headers(auth.extras@, (n - 1) as nat, now)->0;
        let last = auth.extras@[n - 1].headers(now)->0;
        assert(auth.primary.headers(now)->0 + (before + last) =~= (auth.primary.headers(now)->0
            + before) + last);
    }
}

/// Why a configuration makes no auth strategy.
#[derive(Debug, Clone, Copy, PartialEq, Eq, Structural)]
pub enum AuthError {
    MissingCredentialRef,
    MissingOAuth,
}

impl AuthError {
    /// The words for this error.
    pub open spec fn words(self) -> Seq<char> {
        match self {
            AuthError::MissingCredentialRef => "static auth requires credential_ref"@,
            AuthError::MissingOAuth => "oauth auth requires [upstream.auth.oauth] section"@,
        }
    }

    /// The words for this error.
    pub fn message(&self) -> (r: String)
        ensures
            r@ == self.words(),
    {
        match self {
            AuthError::MissingCredentialRef => "static auth requires credential_ref".to_owned(),
            AuthError::MissingOAuth => "oauth auth requires [upstream.auth.oauth] section".to_owned(),
        }
    }
}

/// Why the configuration makes no auth strategy.
pub open spec fn strategy_fault(auth_config: AuthConfig) -> Option<AuthError> {
    match auth_config.method {
        AuthMethod::Static => if auth_config.credential_ref is None {
            Some(AuthError::MissingCredentialRef)
        } else {
            None
        },
        AuthMethod::OAuth => if auth_config.oauth is None {
            Some(AuthError::MissingOAuth)
        } else {
            None
        },
    }
}

/// `auth` is what the configuration asks for, with nothing cached.
pub open spec fn made_from(auth: CompositeAuth, auth_config: AuthConfig, upstream_name: Seq<char>) -> bool {
    &&& match auth_config.method {
        AuthMethod::Static => auth.primary == PrimaryAuth::Static(
            StaticTokenAuth {
                header_name: auth_config.header,
                prefix: auth_config.prefix,
                credential_ref: auth_config.credential_ref->0,
                cached: None,
            },
        ),
        AuthMethod::OAuth => {
            &&& auth.primary matches PrimaryAuth::OAuth(primary)
            &&& primary.upstream_name@ == upstream_name
            &&& primary.header_name == auth_config.header
            &&& primary.config.server_url == auth_config.oauth->0.server_url
            &&& primary.config.scopes.deep_view() == auth_config.oauth->0.scopes.deep_view()
            &&& primary.config.redirect_port == auth_config.oauth->0.redirect_port
            &&& primary.config.client_name == auth_config.oauth->0.client_name
            &&& primary.state == (oauth::OAuthState {
                metadata: None,
                client_credentials: None,
                access_token: None,
                refresh_token: None,
            })
        },
    }
    &&& auth.extras@.len() == auth_config.extra_headers@.len()
    &&& forall|i: int|
        0 <= i < auth.extras@.len() ==> #[trigger] auth.extras@[i] == (StaticTokenAuth {
            header_name: auth_config.extra_headers@[i].header,
            prefix: auth_config.extra_headers@[i].prefix,
            credential_ref: auth_config.extra_headers@[i].credential_ref,
            cached: None,
        })
}

/// Create an auth strategy from config.
pub fn create_auth_strategy(auth_config: &AuthConfig, upstream_name: &str) -> (r: Result<
    CompositeAuth,
    AuthError,
>)
    ensures
        match strategy_fault(*auth_config) {
            Some(e) => r == Err::<CompositeAuth, AuthError>(e),
            None => r matches Ok(auth) && made_from(auth, *auth_config, upstream_name@),
        },
{
    let primary = match auth_config.method {
        AuthMethod::Static => match &auth_config.credential_ref {
            Some(credential_ref) => PrimaryAuth::Static(
                StaticTokenAuth::new(
                    auth_config.header.clone(),
                    settings::duplicate_option(&auth_config.prefix),
                    credential_ref.clone(),
                ),
            ),
            None => {
                return Err(AuthError::MissingCredentialRef);
            },
        },
        AuthMethod::OAuth => match &auth_config.oauth {
            Some(config) => PrimaryAuth::OAuth(
                OAuthAuth::new(upstream_name.to_owned(), auth_config.header.clone(), config),
            ),
            None => {
                return Err(AuthError::MissingOAuth);
            },
        },
    };
    let mut extras: Vec<StaticTokenAuth> = Vec::new();
    let mut i: usize = 0;
    while i < auth_config.extra_headers.len()
        invariant
            i <= auth_config.extra_headers@.len(),
            extras@.len() == i,
            forall|j: int|
                0 <= j < i ==> #[trigger] extras@[j] == (StaticTokenAuth {
                    header_name: auth_config.extra_headers@[j].header,
                    prefix: auth_config.extra_headers@[j].prefix,
                    credential_ref: auth_config.extra_headers@[j].credential_ref,
                    cached: None,
                }),
        decreases auth_config.extra_headers@.len() - i,
    {
        let extra = &auth_config.extra_headers[i];
        extras.push(
            StaticTokenAuth::new(
                extra.header.clone(),
                settings::duplicate_option(&extra.prefix),
                extra.credential_ref.clone(),
            ),
        );
        i += 1;
    }
    Ok(CompositeAuth { primary, extras })
}

/// An upstream that meets the rules of the configuration gets an auth strategy.
pub proof fn law_valid_upstream_has_strategy(upstream: UpstreamConfig)
    requires
        upstream.fault() is None,
    ensures
        strategy_fault(upstream.auth) is None,
{
}

/// The header of a static token is its cached value under its own name, and that of OAuth the
/// bearer token; they are at hand exactly for as long as what is cached may be used.
pub proof fn law_own_header(fixed: StaticTokenAuth, auth: OAuthAuth, now: u64)
    ensures
        fixed.headers(now) is Some <==> fixed.cached is Some && now
            < fixed.cached->0.resolved_at + 300_000_000_000,
        fixed.headers(now) matches Some(h) ==> h == seq![
            (fixed.header_name@, fixed.cached->0.value@),
        ],
        auth.headers(now) is Some <==> auth.state.access_token is Some && now
            < auth.state.access_token->0.expires_at,
        auth.headers(now) matches Some(h) ==> h == seq![
            (auth.header_name@, "Bearer "@ + auth.state.access_token->0.value@),
        ],
        PrimaryAuth::Static(fixed).headers(now) == fixed.headers(now),
        PrimaryAuth::OAuth(auth).headers(now) == auth.headers(now),
{
}

/// The additional headers are at hand exactly when each one is, and stand in their order.
proof fn lemma_extra_headers(extras: Seq<StaticTokenAuth>, n: nat, now: u64)
    requires
        n <= extras.len(),
    ensures
        extra_headers(extras, n, now) is Some <==> forall|j: int|
            0 <= j < n ==> (#[trigger] extras[j]).headers(now) is Some,
        extra_headers(extras, n, now) is Some ==> extra_headers(extras, n, now)->0.len() == n
            && forall|j: int|
            0 <= j < n ==> extras[j].headers(now)->0[0] == #[trigger] extra_headers(
                extras,
                n,
                now,
            )->0[j],
    decreases n,
{
    if n > 0 {
        lemma_extra_headers(extras, (n - 1) as nat, now);
        if extra_headers(extras, n, now) is Some {
            let all = extra_headers(extras, n, now)->0;
            let before = extra_headers(extras, (n - 1) as nat, now)->0;
            assert forall|j: int| 0 <= j < n implies extras[j].headers(now)->0[0]
                == #[trigger] all[j] by {
                if j < n - 1 {
                    assert(all[j] == before[j]);
                }
            }
            assert forall|j: int| 0 <= j < n implies (#[trigger] extras[j]).headers(now)
                is Some by {
                if j < n - 1 {
                    assert(extras[j].headers(now) is Some);
                }
            }
        }
    }
}

/// The headers of a strategy are that of its primary part and then those of its additional parts,
/// one each, in their order; they are at hand exactly when all of them are.
pub proof fn law_composite_headers(auth: CompositeAuth, now: u64, i: int)
    requires
        0 <= i < auth.extras@.len(),
    ensures
        auth.headers(now) is Some <==> auth.primary.headers(now) is Some && forall|j: int|
            0 <= j < auth.extras@.len() ==> (#[trigger] auth.extras@[j]).headers(now) is Some,
        auth.headers(now) matches Some(h) ==> h.len() == auth.extras@.len() + 1 && h[0]
            == auth.primary.headers(now)->0[0] && h[i + 1] == auth.extras@[i].headers(now)->0[0],
{
    lemma_extra_headers(auth.extras@, auth.extras@.len(), now);
    if auth.headers(now) is Some {
        let h = auth.headers(now)->0;
        let rest = extra_headers(auth.extras@, auth.extras@.len(), now)->0;
        assert(h[i + 1] == rest[i]);
    }
}

/// Without additional parts the header is that of the primary part alone.
pub proof fn law_primary_alone(auth: CompositeAuth, now: u64)
    requires
        auth.extras@.len() == 0,
    ensures
        auth.headers(now) == auth.primary.headers(now),
{
    if let Some(first) = auth.primary.headers(now) {
        assert(first + Seq::<(Seq<char>, Seq<char>)>::empty() =~= first);
    }
}

/// After an eviction no part has a header at hand, and everything stays that leads to new ones:
/// the names, the credentials to resolve, and what is known of the server, the client and the
/// refresh token.
pub proof fn law_eviction_keeps_the_way(
    before: CompositeAuth,
    after: CompositeAuth,
    now: u64,
    i: int,
)
    requires
        after.is_evicted(before),
    ensures
        after.headers(now) is None,
        after.primary.headers(now) is None,
        before.primary matches PrimaryAuth::Static(b) ==> (after.primary matches PrimaryAuth::Static(
            a,
        ) && a.header_name == b.header_name && a.prefix == b.prefix && a.credential_ref
            == b.credential_ref && a.cached is None),
        before.primary matches PrimaryAuth::OAuth(b) ==> (after.primary matches PrimaryAuth::OAuth(a)
            && a.upstream_name == b.upstream_name && a.header_name == b.header_name && a.config
            == b.config && a.state.metadata == b.state.metadata && a.state.client_credentials
            == b.state.client_credentials && a.state.refresh_token == b.state.refresh_token
            && a.state.access_token is None),
        after.extras@.len() == before.extras@.len(),
        0 <= i < before.extras@.len() ==> after.extras@[i].headers(now) is None
            && after.extras@[i].header_name == before.extras@[i].header_name
            && after.extras@[i].prefix == before.extras@[i].prefix
            && after.extras@[i].credential_ref == before.extras@[i].credential_ref,
{
    if 0 <= i < before.extras@.len() {
        assert(after.extras@[i] == (StaticTokenAuth { cached: None, ..before.extras@[i] }));
    }
}

/// A strategy is made exactly from a configuration that has what its method needs.
pub proof fn law_strategy_needs(config: AuthConfig)
    ensures
        strategy_fault(config) is None <==> (config.method is Static && config.credential_ref
            is Some || config.method is OAuth && config.oauth is Some),
        config.method is Static && config.credential_ref is None ==> strategy_fault(config) == Some(
            AuthError::MissingCredentialRef,
        ),
        config.method is OAuth && config.oauth is None ==> strategy_fault(config) == Some(
            AuthError::MissingOAuth,
        ),
{
}

/// A new strategy has no header at hand; it asks for the configured credential, or for the
/// configured server, and each additional part for the credential configured in its place.
pub proof fn law_new_strategy_asks_for_what_is_configured(
    auth: CompositeAuth,
    config: AuthConfig,
    upstream_name: Seq<char>,
    now: u64,
    i: int,
    need: AuthNeed,
)
    requires
        made_from(auth, config, upstream_name),
        strategy_fault(config) is None,
        0 <= i <= config.extra_headers@.len(),
        auth.part_needs(i, need),
    ensures
        auth.headers(now) is None,
        auth.extras@.len() == config.extra_headers@.len(),
        i > 0 ==> need == (AuthNeed::Resolve {
            credential_ref: config.extra_headers@[i - 1].credential_ref,
        }) && auth.extras@[i - 1].header_name == config.extra_headers@[i - 1].header
            && auth.extras@[i - 1].prefix == config.extra_headers@[i - 1].prefix,
        i == 0 && config.method is Static ==> need == (AuthNeed::Resolve {
            credential_ref: config.credential_ref->0,
        }) && auth.primary->Static_0.header_name == config.header
            && auth.primary->Static_0.prefix == config.prefix,
        i == 0 && config.method is OAuth ==> (need matches AuthNeed::Token { action }
            && action matches TokenAction::Discover { url } && url@ == oauth::well_known(
            config.oauth->0.server_url@,
        )) && auth.primary->OAuth_0.header_name == config.header
            && auth.primary->OAuth_0.upstream_name@ == upstream_name,
{
    if i > 0 {
        assert(auth.extras@[i - 1].credential_ref == config.extra_headers@[i - 1].credential_ref);
    }
}

/// A credential that was resolved for a part gives the header of that part: it is collected as the
/// next one, and the part has it at hand from then on. No other part changes.
pub proof fn law_resolved_credential_is_collected(
    before: CompositeAuth,
    run: HeaderRun,
    raw: String,
    now: u64,
    after: CompositeAuth,
    run_after: HeaderRun,
    r: Option<TokenAction>,
    j: int,
    t: u64,
)
    requires
        run.next() <= before.extras@.len(),
        run.next() == 0 ==> before.primary is Static,
        0 <= j <= before.extras@.len(),
        before.supplied(run, AuthEvent::Resolved { raw }, now, after, run_after, r),
    ensures
        r is None,
        run_after.next() == run.next() + 1,
        after.part_headers(run.next(), now) is Some,
        run_after.headers.deep_view() == run.headers.deep_view() + after.part_headers(
            run.next(),
            now,
        )->0,
        after.extras@.len() == before.extras@.len(),
        j != run.next() ==> after.part_headers(j, t) == before.part_headers(j, t),
{
    let collected = after.part_headers(run.next(), now)->0;
    assert(run.headers.deep_view() + collected =~= run.headers.deep_view().push(collected[0]));
}

/// The value of a header that was resolved is the credential behind the prefix of its part.
pub proof fn law_resolved_value(
    before: CompositeAuth,
    run: HeaderRun,
    raw: String,
    now: u64,
    after: CompositeAuth,
    run_after: HeaderRun,
    r: Option<TokenAction>,
)
    requires
        before.supplied(run, AuthEvent::Resolved { raw }, now, after, run_after, r),
    ensures
        run.next() == 0 && before.primary is Static ==> run_after.headers.deep_view()
            == run.headers.deep_view().push(
            (
                before.primary->Static_0.header_name@,
                static_token::header_value(before.primary->Static_0.prefix.deep_view(), raw@),
            ),
        ),
        0 < run.next() <= before.extras@.len() ==> run_after.headers.deep_view()
            == run.headers.deep_view().push(
            (
                before.extras@[run.next() - 1].header_name@,
                static_token::header_value(
                    before.extras@[run.next() - 1].prefix.deep_view(),
                    raw@,
                ),
            ),
        ),
{
}

/// What a part did not ask for changes nothing: a credential where a token is wanted, a step to a
/// token where none is, and anything once all headers have been collected.
pub proof fn law_unasked_changes_nothing(
    before: CompositeAuth,
    run: HeaderRun,
    event: AuthEvent,
    now: u64,
    after: CompositeAuth,
    run_after: HeaderRun,
    r: Option<TokenAction>,
)
    requires
        before.supplied(run, event, now, after, run_after, r),
        event is Resolved ==> run.next() > before.extras@.len() || run.next() == 0
            && before.primary is OAuth,
        event is Token ==> run.next() > 0 || before.primary is Static,
    ensures
        after == before,
        run_after == run,
        r is None,
{
}

/// A step to a token goes on with the next action, or gives the bearer header of the token that is
/// then cached; the additional parts stay as they were.
pub proof fn law_token_is_collected(
    before: CompositeAuth,
    run: HeaderRun,
    event: TokenEvent,
    now: u64,
    after: CompositeAuth,
    run_after: HeaderRun,
    r: Option<TokenAction>,
)
    requires
        run.next() == 0,
        before.primary is OAuth,
        before.supplied(run, AuthEvent::Token(event), now, after, run_after, r),
    ensures
        after.extras == before.extras,
        after.primary is OAuth,
        r matches Some(action) ==> !(action is Use) && run_after == run
            && before.primary->OAuth_0.stepped(event, now, after.primary->OAuth_0, action),
        r is None ==> run_after.next() == 1 && after.primary->OAuth_0.state.access_token is Some
            && run_after.headers.deep_view() == run.headers.deep_view().push(
            (
                before.primary->OAuth_0.header_name@,
                "Bearer "@ + after.primary->OAuth_0.state.access_token->0.value@,
            ),
        ),
{
    let auth = before.primary->OAuth_0;
    let renewed = after.primary->OAuth_0;
    if r is None {
        let token = choose|token: String| #[trigger]
            auth.stepped(event, now, renewed, TokenAction::Use { token })
                && run_after.headers.deep_view() == run.headers.deep_view().push(
                (auth.header_name@, "Bearer "@ + token@),
            );
        oauth::law_used_token_was_granted(auth, event, now, renewed, token);
    }
}

/// A walk from the start on which everything is at hand collects the headers of the strategy, and
/// needs nothing.
pub proof fn law_everything_at_hand(
    auth: CompositeAuth,
    run: HeaderRun,
    now: u64,
    run_after: HeaderRun,
    need: AuthNeed,
)
    requires
        run.next() == 0,
        run.headers@.len() == 0,
        auth.headers(now) is Some,
        auth.collects(run, now, run_after, need),
    ensures
        need is Nothing,
        run_after.headers.deep_view() == auth.headers(now)->0,
{
    let n = auth.extras@.len();
    lemma_extra_headers(auth.extras@, n, now);
    let at = run_after.next();
    if at <= n {
        assert(auth.part_headers(at, now) is None);
        if at > 0 {
            assert(auth.extras@[at - 1].headers(now) is Some);
        }
    }
    assert(at == n + 1);
    law_walk_collects_headers(auth, now);
    assert(run.headers.deep_view() =~= Seq::empty());
    assert(Seq::empty() + auth.headers(now)->0 =~= auth.headers(now)->0);
}

/// A walk stops at the first part that has nothing at hand, and asks for what that part needs; the
/// headers of the parts before it are collected in their order.
pub proof fn law_walk_stops_at_first_need(
    auth: CompositeAuth,
    run: HeaderRun,
    now: u64,
    run_after: HeaderRun,
    need: AuthNeed,
    i: int,
)
    requires
        run.next() <= i <= auth.extras@.len(),
        auth.part_headers(i, now) is None,
        forall|j: int| run.next() <= j < i ==> (#[trigger] auth.part_headers(j, now)) is Some,
        auth.collects(run, now, run_after, need),
    ensures
        run_after.next() == i,
        i > 0 ==> need == (AuthNeed::Resolve { credential_ref: auth.extras@[i - 1].credential_ref }),
        i == 0 && auth.primary is Static ==> need == (AuthNeed::Resolve {
            credential_ref: auth.primary->Static_0.credential_ref,
        }),
        i == 0 && auth.primary is OAuth ==> need is Token && auth.primary->OAuth_0.goes_on(
            need->action,
        ),
        i == run.next() ==> run_after.headers.deep_view() == run.headers.deep_view(),
        i == run.next() + 1 ==> run_after.headers.deep_view() == run.headers.deep_view()
            + auth.part_headers(run.next(), now)->0,
{
    let at = run_after.next();
    if at < i {
        assert(auth.part_headers(at, now) is Some);
    }
    if at > i {
        assert(auth.part_headers(i, now) is Some);
    }
    let from = run.next();
    assert(auth.parts_headers(from, from, now) =~= Seq::empty());
    if i == from {
        assert(run.headers.deep_view() + Seq::empty() =~= run.headers.deep_view());
    }
    if i == from + 1 {
        assert(auth.parts_headers(from, i, now) =~= auth.part_headers(from, now)->0);
    }
}

/// The parts are the primary one and then the additional ones, in their order.
pub proof fn law_parts(auth: CompositeAuth, from: int, to: int, now: u64, i: int)
    requires
        0 <= from <= to,
        0 <= i < auth.extras@.len(),
    ensures
        auth.part_headers(0, now) == auth.primary.headers(now),
        auth.part_headers(i + 1, now) == auth.extras@[i].headers(now),
        auth.parts_headers(from, from, now).len() == 0,
        auth.parts_headers(from, to + 1, now) == auth.parts_headers(from, to, now)
            + auth.part_headers(to, now)->0,
{
}

} // verus!
