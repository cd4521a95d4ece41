//! Static token authentication: resolves a credential once, caches it, and injects it as a
//! configurable HTTP header. Times are counted in nanoseconds from a common origin.
use vstd::prelude::*;
use vstd::string::*;

verus! {

/// How long a resolved credential is used, in nanoseconds: five minutes.
pub const DEFAULT_CACHE_TTL_NANOS: u64 = 300_000_000_000;

/// A resolved credential, as it goes into the header.
#[derive(Debug)]
pub struct CachedToken {
    pub value: String,
    pub resolved_at: u64,
}

/// Static token authentication with one header.
#[derive(Debug)]
pub struct StaticTokenAuth {
    pub header_name: String,
    pub prefix: Option<String>,
    pub credential_ref: String,
    pub cached: Option<CachedToken>,
}

/// What is to be done for the value of the header.
#[derive(Debug)]
pub enum StaticStep {
    /// Nothing: this is the value.
    Use { value: String },
    /// Resolve the credential and go on with `store_resolved`.
    Resolve { credential_ref: String },
}

/// The value of a header for a credential.
pub open spec fn header_value(prefix: Option<Seq<char>>, raw: Seq<char>) -> Seq<char> {
    match prefix {
        Some(p) => p + " "@ + raw,
        None => raw,
    }
}

impl StaticTokenAuth {
    /// The cached value, where it may still be used at the time `now`.
    pub open spec fn usable(self, now: u64) -> Option<String> {
        match self.cached {
            Some(token) => if now - token.resolved_at < DEFAULT_CACHE_TTL_NANOS {
                Some(token.value)
            } else {
                None
            },
            None => None,
        }
    }

    /// This is `before` with `value` cached at the time `now`.
    pub open spec fn renews(self, before: StaticTokenAuth, value: Seq<char>, now: u64) -> bool {
        &&& self == (StaticTokenAuth { cached: self.cached, ..before })
        &&& self.cached matches Some(token) && token.value@ == value && token.resolved_at == now
    }

    /// Authentication with the credential `credential_ref`, of which nothing is cached.
    pub fn new(header_name: String, prefix: Option<String>, credential_ref: String) -> (r:
        StaticTokenAuth)
        ensures
            r.header_name == header_name,
            r.prefix == prefix,
            r.credential_ref == credential_ref,
            r.cached is None,
    {
        StaticTokenAuth { header_name, prefix, credential_ref, cached: None }
    }

    /// The value of the header for the resolved credential `raw`.
    pub fn resolve_token(&self, raw: &str) -> (r: String)
        ensures
            r@ == header_value(self.prefix.deep_view(), raw@),
    {
        match &self.prefix {
            Some(prefix) => prefix.clone().concat(" ").concat(raw),
            None => raw.to_owned(),
        }
    }

    /// `step` is what is to be done for the value of the header at the time `now`.
    pub open spec fn asks(self, now: u64, step: StaticStep) -> bool {
        match self.usable(now) {
            Some(value) => step == (StaticStep::Use { value }),
            None => step == (StaticStep::Resolve { credential_ref: self.credential_ref }),
        }
    }

    /// The cached value, or the credential to resolve.
    pub fn get_or_resolve(&self, now: u64) -> (r: StaticStep)
        ensures
            self.asks(now, r),
    {
        if let Some(token) = &self.cached {
            if now < token.resolved_at || now - token.resolved_at < DEFAULT_CACHE_TTL_NANOS {
                return StaticStep::Use { value: token.value.clone() };
            }
        }
        StaticStep::Resolve { credential_ref: self.credential_ref.clone() }
    }

    /// Caches the value for the credential `raw`, which was resolved by the time `now`.
    pub fn store_resolved(&mut self, raw: &str, now: u64) -> (r: String)
        ensures
            r@ == header_value(old(self).prefix.deep_view(), raw@),
            *final(self) == (StaticTokenAuth {
                cached: Some(CachedToken { value: r, resolved_at: now }),
                ..*old(self)
            }),
    {
        let value = self.resolve_token(raw);
        self.cached = Some(CachedToken { value: value.clone(), resolved_at: now });
        value
    }

    /// Evicts the cached value, so that the next request resolves the credential again.
    pub fn evict(&mut self)
        ensures
            *final(self) == (StaticTokenAuth { cached: None, ..*old(self) }),
    {
        self.cached = None;
    }
}

/// A resolved credential is used without resolving it again for five minutes, and not from then
/// on.
pub proof fn law_resolved_is_cached(auth: StaticTokenAuth, value: String, now: u64, later: u64)
    requires
        now <= later,
    ensures
        (StaticTokenAuth { cached: Some(CachedToken { value, resolved_at: now }), ..auth }).usable(
            later,
        ) == if later < now + DEFAULT_CACHE_TTL_NANOS {
            Some(value)
        } else {
            None
        },
{
}

/// The value of a header is the credential, after the prefix and a space where there is a prefix.
pub proof fn law_header_value(prefix: Seq<char>, raw: Seq<char>)
    ensures
        header_value(None, raw) == raw,
        header_value(Some(prefix), raw).len() == prefix.len() + 1 + raw.len(),
        header_value(Some(prefix), raw).take(prefix.len() as int) == prefix,
        header_value(Some(prefix), raw)[prefix.len() as int] == ' ',
        header_value(Some(prefix), raw).skip(prefix.len() as int + 1) == raw,
{
    reveal_strlit(" ");
    let value = header_value(Some(prefix), raw);
    assert(value.take(prefix.len() as int) =~= prefix);
    assert(value.skip(prefix.len() as int + 1) =~= raw);
}

/// What was resolved is used until five minutes have passed since, also where the clock is set
/// back, and then its credential is resolved again; so it is where nothing was resolved.
pub proof fn law_resolved_again_after_five_minutes(
    auth: StaticTokenAuth,
    token: CachedToken,
    now: u64,
    step: StaticStep,
)
    requires
        auth.asks(now, step),
    ensures
        auth.cached == Some(token) && now < token.resolved_at + 300_000_000_000 ==> step == (
        StaticStep::Use { value: token.value }),
        auth.cached == Some(token) && now >= token.resolved_at + 300_000_000_000 ==> step == (
        StaticStep::Resolve { credential_ref: auth.credential_ref }),
        auth.cached is None ==> step == (StaticStep::Resolve {
            credential_ref: auth.credential_ref,
        }),
{
}

/// What a renewal caches is used from then on for five minutes, and the settings stay.
pub proof fn law_renewed_is_used(
    before: StaticTokenAuth,
    after: StaticTokenAuth,
    value: Seq<char>,
    now: u64,
    later: u64,
    step: StaticStep,
)
    requires
        after.renews(before, value, now),
        after.asks(later, step),
        later < now + 300_000_000_000,
    ensures
        step matches StaticStep::Use { value: used } && used@ == value,
        after.header_name == before.header_name,
        after.prefix == before.prefix,
        after.credential_ref == before.credential_ref,
{
}

} // verus!
