//! The proxy itself: routing, forwarding and the settings API.
pub mod http_upstream;
pub mod pending;
pub mod reply;
pub mod stdio_upstream;
pub mod tools;

use vstd::prelude::*;
use vstd::string::*;
use crate::auth;
use crate::auth::{AuthEvent, AuthNeed, AuthStrategy, CompositeAuth, HeaderRun};
use crate::auth::oauth::TokenAction;
use crate::config::{TransportType, UpstreamConfig};
use crate::json;
use crate::json::{Json, JsonTree};
use crate::name_map;
use crate::name_map::NameMap;
use crate::proxy::http_upstream::{HttpUpstream, Target};
use crate::proxy::reply::Reply;
use crate::proxy::stdio_upstream::StdioUpstream;
use crate::proxy::tools::{Inspection, ResponsePlan};
use crate::settings;
use crate::settings::{Profile, ProfileStore, ProfileView};
use crate::text;
use crate::tool_cache::ToolCache;

verus! {

/// State for a single upstream.
#[derive(Debug)]
pub struct UpstreamState {
    pub name: String,
    pub transport: TransportType,
    pub auth: CompositeAuth,
    pub http: Option<HttpUpstream>,
    pub stdio: Option<StdioUpstream>,
}

impl DeepView for UpstreamState {
    type V = UpstreamState;

    open spec fn deep_view(&self) -> UpstreamState {
        *self
    }
}

/// Application state.
pub struct AppState {
    pub upstreams: NameMap<UpstreamState>,
    pub tool_cache: ToolCache,
    pub profile_store: ProfileStore,
}

/// The entry that an upstream makes, under the name that it has.
pub open spec fn named_upstreams(upstreams: Seq<UpstreamState>) -> Seq<
    (Seq<char>, UpstreamState),
> {
    upstreams.map_values(|u: UpstreamState| (u.name@, u))
}

impl AppState {
    /// The state with the given upstreams. Of the upstreams that share a name, the last one is
    /// kept.
    pub fn new(upstreams: Vec<UpstreamState>, tool_cache: ToolCache, profile_store: ProfileStore) -> (r:
        AppState)
        ensures
            r.upstreams@ == name_map::entries_map(named_upstreams(upstreams@)),
            r.tool_cache == tool_cache,
            r.profile_store == profile_store,
    {
        let ghost all = upstreams@;
        let ghost entries = named_upstreams(all);
        let mut by_name: NameMap<UpstreamState> = NameMap::new();
        let mut rest = upstreams;
        let count: usize = rest.len();
        let mut i: usize = 0;
        assert(entries.take(0) =~= Seq::empty());
        assert(all.skip(0) =~= all);
        while i < count
            invariant
                i <= count,
                count == all.len(),
                entries == named_upstreams(all),
                rest@ == all.skip(i as int),
                by_name@ == name_map::entries_map(entries.take(i as int)),
            decreases count - i,
        {
            assert(rest@[0] == all[i as int]);
            let upstream = rest.remove(0);
            by_name.insert(upstream.name.clone(), upstream);
            proof {
                assert(entries.take(i + 1).drop_last() =~= entries.take(i as int));
                assert(entries.take(i + 1).last() == (all[i as int].name@, all[i as int]));
                assert(all.skip(i as int).remove(0) =~= all.skip(i + 1));
            }
            i += 1;
        }
        assert(entries.take(i as int) =~= entries);
        AppState { upstreams: by_name, tool_cache, profile_store }
    }

    /// The names of the upstreams, each once.
    pub fn list_upstreams(&self) -> (r: Vec<String>)
        ensures
            r@.len() == self.upstreams@.dom().len(),
            forall|name: Seq<char>|
                self.upstreams@.contains_key(name) <==> r.deep_view().contains(name),
    {
        let mut out: Vec<String> = Vec::new();
        let mut i: usize = 0;
        let n: usize = self.upstreams.len();
        let ghost entries = self.upstreams.entries();
        while i < n
            invariant
                i <= n,
                n == entries.len(),
                entries == self.upstreams.entries(),
                out@.len() == i,
                forall|j: int| 0 <= j < i ==> (#[trigger] out@[j])@ == entries[j].0,
            decreases n - i,
        {
            let entry = self.upstreams.entry(i);
            out.push(entry.0.clone());
            i += 1;
        }
        proof {
            name_map::lemma_entries_map(entries);
            assert forall|name: Seq<char>|
                self.upstreams@.contains_key(name) <==> out.deep_view().contains(name) by {
                if self.upstreams@.contains_key(name) {
                    let j = choose|j: int|
                        0 <= j < entries.len() && (#[trigger] entries[j]).0 == name;
                    assert(out.deep_view()[j] == out@[j]@);
                }
                if out.deep_view().contains(name) {
                    let j = choose|j: int|
                        0 <= j < out.deep_view().len() && out.deep_view()[j] == name;
                    assert(out@[j]@ == entries[j].0);
                }
            }
        }
        out
    }
}

/// The segments of a path: its pieces between the slashes that are not empty.
pub open spec fn segments_of(path: Seq<char>) -> Seq<Seq<char>> {
    text::non_empty(text::split(path, '/'))
}

/// The path that is left, with the query.
pub open spec fn remaining_path(segments: Seq<Seq<char>>, query: Option<Seq<char>>) -> Seq<char> {
    let path = if segments.len() == 0 {
        "/"@
    } else {
        "/"@ + text::joined(segments, "/"@)
    };
    match query {
        Some(q) => path + "?"@ + q,
        None => path,
    }
}

/// The path that is left, with the query.
pub fn build_remaining_path(segments: &[String], query: &Option<String>) -> (r: String)
    ensures
        r@ == remaining_path(segments@.map_values(|s: String| s@), query.deep_view()),
{
    let path = if segments.len() == 0 {
        "/".to_owned()
    } else {
        "/".to_owned().concat(text::join(segments, "/").as_str())
    };
    match query {
        Some(q) => path.concat("?").concat(q.as_str()),
        None => path,
    }
}

/// The answer where no upstream is found.
pub fn not_found() -> (r: Reply)
    ensures
        r.says(404, "no upstream configured for this path prefix"@),
{
    Reply::text(404, "no upstream configured for this path prefix")
}

/// Where a request goes.
pub enum Route {
    /// Answer it.
    Answer(Reply),
    /// Forward it to the upstream with the path that is left, limited by the profile.
    Forward { upstream: String, remaining: String, profile: Option<Profile> },
}

/// Where a request goes that has the segments `segments`. A profile takes precedence over an
/// upstream of the same name.
pub open spec fn routed(
    segments: Seq<Seq<char>>,
    query: Option<Seq<char>>,
    profiles: Map<Seq<char>, ProfileView>,
    upstreams: Map<Seq<char>, UpstreamState>,
    r: Route,
) -> bool {
    let lost = r matches Route::Answer(reply) && reply.says(
        404,
        "no upstream configured for this path prefix"@,
    );
    if segments.len() == 0 {
        lost
    } else if profiles.contains_key(segments[0]) {
        if segments.len() < 2 {
            r matches Route::Answer(reply) && reply.says(
                400,
                "profile prefix requires an upstream path segment"@,
            )
        } else if upstreams.contains_key(segments[1]) {
            &&& r matches Route::Forward { upstream, remaining, profile }
            &&& upstream@ == segments[1]
            &&& remaining@ == remaining_path(segments.skip(2), query)
            &&& profile matches Some(p) && p.deep_view() == profiles[segments[0]]
        } else {
            lost
        }
    } else if upstreams.contains_key(segments[0]) {
        &&& r matches Route::Forward { upstream, remaining, profile }
        &&& upstream@ == segments[0]
        &&& remaining@ == remaining_path(segments.skip(1), query)
        &&& profile is None
    } else {
        lost
    }
}

impl AppState {
    /// Decides where a request goes.
    pub fn root_handler(&self, path: &str, query: &Option<String>) -> (r: Route)
        ensures
            routed(
                segments_of(path@),
                query.deep_view(),
                self.profile_store@,
                self.upstreams@,
                r,
            ),
    {
        let segments = text::keep_non_empty(text::split_text(path, '/'));
        let ghost names = segments.deep_view();
        let count: usize = segments.len();
        if count == 0 {
            return Route::Answer(not_found());
        }
        assert(names[0] == segments@[0]@);
        if let Some(profile) = self.profile_store.get(segments[0].as_str()) {
            if count < 2 {
                return Route::Answer(
                    Reply::text(400, "profile prefix requires an upstream path segment"),
                );
            }
            assert(names[1] == segments@[1]@);
            if self.upstreams.contains_key(segments[1].as_str()) {
                let rest = vstd::slice::slice_subrange(segments.as_slice(), 2, count);
                assert(rest@.map_values(|s: String| s@) =~= names.skip(2));
                return Route::Forward {
                    upstream: segments[1].clone(),
                    remaining: build_remaining_path(rest, query),
                    profile: Some(profile),
                };
            }
            return Route::Answer(not_found());
        }
        if self.upstreams.contains_key(segments[0].as_str()) {
            let rest = vstd::slice::slice_subrange(segments.as_slice(), 1, count);
            assert(rest@.map_values(|s: String| s@) =~= names.skip(1));
            return Route::Forward {
                upstream: segments[0].clone(),
                remaining: build_remaining_path(rest, query),
                profile: None,
            };
        }
        Route::Answer(not_found())
    }
}

/// A profile name is well-formed: not empty, and made of alphanumeric characters, hyphens and
/// underscores.
pub open spec fn well_formed_name(name: Seq<char>) -> bool {
    &&& name.len() > 0
    &&& forall|i: int|
        0 <= i < name.len() ==> text::alphanumeric(#[trigger] name[i]) || name[i] == '-' || name[i]
            == '_'
}

/// Whether a profile name is well-formed. A well-formed name is a segment of a path: no slash is
/// in it.
pub fn is_well_formed_name(name: &str) -> (r: bool)
    ensures
        r == well_formed_name(name@),
        r ==> !name@.contains('/'),
{
    let chars = text::chars_of(name);
    if chars.len() == 0 {
        return false;
    }
    let mut i: usize = 0;
    while i < chars.len()
        invariant
            i <= chars@.len(),
            chars@ == name@,
            forall|j: int| 0 <= j < i ==> name@[j] != '/',
            forall|j: int|
                0 <= j < i ==> text::alphanumeric(#[trigger] name@[j]) || name@[j] == '-' || name@[j]
                    == '_',
        decreases chars@.len() - i,
    {
        let c = chars[i];
        if !(text::is_alphanumeric(c) || c == '-' || c == '_') {
            assert(!(text::alphanumeric(name@[i as int]) || name@[i as int] == '-'
                || name@[i as int] == '_'));
            return false;
        }
        i += 1;
    }
    true
}

/// The status and the words with which the creation of a profile is refused. `well_formed` says
/// whether its name is well-formed.
pub open spec fn creation_fault(
    name: Seq<char>,
    upstreams: Map<Seq<char>, UpstreamState>,
    well_formed: bool,
) -> Option<(u16, Seq<char>)> {
    if upstreams.contains_key(name) {
        Some((409, "profile name conflicts with an upstream name"@))
    } else if name == "settings"@ {
        Some((409, "profile name 'settings' is reserved"@))
    } else if !well_formed {
        Some(
            (
                400,
                "profile name must be non-empty and contain only alphanumeric characters, hyphens, or underscores"@,
            ),
        )
    } else {
        None
    }
}

impl AppState {
    /// What becomes of `self` when `profile` is to be created.
    pub open spec fn creates(
        self,
        profile: Profile,
        after: AppState,
        r: Result<(u16, Profile), Reply>,
    ) -> bool {
        &&& after.upstreams == self.upstreams
        &&& after.tool_cache == self.tool_cache
        &&& after.profile_store.path() == self.profile_store.path()
        &&& match creation_fault(
            profile.name@,
            self.upstreams@,
            well_formed_name(profile.name@),
        ) {
            Some((status, words)) => {
                &&& r matches Err(reply) && reply.says(status, words)
                &&& after.profile_store@ == self.profile_store@
            },
            None => {
                &&& r matches Ok((status, created)) && status == 201 && created.deep_view()
                    == profile.deep_view()
                &&& after.profile_store@ == self.profile_store@.insert(
                    profile.name@,
                    profile.deep_view(),
                )
            },
        }
    }

    /// What becomes of `self` when `profile` is kept under `name`.
    pub open spec fn updates(
        self,
        name: Seq<char>,
        profile: Profile,
        after: AppState,
        r: Profile,
    ) -> bool {
        &&& after.upstreams == self.upstreams
        &&& after.tool_cache == self.tool_cache
        &&& after.profile_store.path() == self.profile_store.path()
        &&& r.deep_view() == (ProfileView { name, ..profile.deep_view() })
        &&& after.profile_store@ == self.profile_store@.insert(name, r.deep_view())
    }

    /// What becomes of `self` when the profile called `name` is deleted.
    pub open spec fn deletes(self, name: Seq<char>, after: AppState, r: Result<u16, Reply>) -> bool {
        &&& after.upstreams == self.upstreams
        &&& after.tool_cache == self.tool_cache
        &&& after.profile_store.path() == self.profile_store.path()
        &&& after.profile_store@ == self.profile_store@.remove(name)
        &&& if self.profile_store@.contains_key(name) {
            r == Ok::<u16, Reply>(204)
        } else {
            r matches Err(reply) && reply.says(404, "profile not found"@)
        }
    }

    /// What becomes of `self` when tools of the upstream `name` were fetched, or were not.
    pub open spec fn takes_tools(
        self,
        name: Seq<char>,
        fetched: Result<Vec<Json>, String>,
        after: AppState,
        r: Reply,
    ) -> bool {
        &&& after.upstreams == self.upstreams
        &&& after.profile_store == self.profile_store
        &&& match fetched {
            Ok(found) => {
                &&& after.tool_cache@ == self.tool_cache@.insert(name, found.deep_view())
                &&& r.carries(200, fetched_tree(name, found.deep_view()))
            },
            Err(reason) => {
                &&& after.tool_cache@ == self.tool_cache@
                &&& r.says(502, "failed to fetch tools: "@ + reason@)
            },
        }
    }

    /// Refuses the creation of a profile called `name`, where it is not to be created.
    pub fn refuse_creation(&self, name: &str, well_formed: bool) -> (r: Option<Reply>)
        ensures
            match creation_fault(name@, self.upstreams@, well_formed) {
                Some((status, words)) => r matches Some(reply) && reply.says(status, words),
                None => r is None,
            },
    {
        if self.upstreams.contains_key(name) {
            return Some(Reply::text(409, "profile name conflicts with an upstream name"));
        }
        if text::same_text(name, "settings") {
            return Some(Reply::text(409, "profile name 'settings' is reserved"));
        }
        if !well_formed {
            return Some(
                Reply::text(
                    400,
                    "profile name must be non-empty and contain only alphanumeric characters, hyphens, or underscores",
                ),
            );
        }
        None
    }

    /// Creates a profile, in place of the one that had its name. What is created is answered with,
    /// and with the status 201.
    pub fn create_profile(&mut self, profile: Profile) -> (r: Result<(u16, Profile), Reply>)
        ensures
            r is Ok ==> profile.name@.len() > 0 && !profile.name@.contains('/'),
            old(self).creates(profile, *final(self), r),
    {
        let well_formed = is_well_formed_name(profile.name.as_str());
        if let Some(refusal) = self.refuse_creation(profile.name.as_str(), well_formed) {
            return Err(refusal);
        }
        let created = profile.duplicate();
        self.profile_store.upsert(profile);
        Ok((201, created))
    }

    /// Keeps a profile under `name`, whatever name it brings.
    pub fn update_profile(&mut self, name: String, profile: Profile) -> (r: Profile)
        ensures
            old(self).updates(name@, profile, *final(self), r),
    {
        let renamed = Profile { name, allowed_tools: profile.allowed_tools };
        let updated = renamed.duplicate();
        self.profile_store.upsert(renamed);
        updated
    }

    /// The profile called `name`.
    pub fn get_profile(&self, name: &str) -> (r: Result<Profile, Reply>)
        ensures
            if self.profile_store@.contains_key(name@) {
                r matches Ok(p) && p.deep_view() == self.profile_store@[name@]
            } else {
                r matches Err(reply) && reply.says(404, "profile not found"@)
            },
    {
        match self.profile_store.get(name) {
            Some(profile) => Ok(profile),
            None => Err(Reply::text(404, "profile not found")),
        }
    }

    /// Deletes the profile called `name`, which is answered with the status 204 and no body.
    pub fn delete_profile(&mut self, name: &str) -> (r: Result<u16, Reply>)
        ensures
            old(self).deletes(name@, *final(self), r),
    {
        if self.profile_store.delete(name) {
            Ok(204)
        } else {
            Err(Reply::text(404, "profile not found"))
        }
    }

    /// Answers with the cached tools of every upstream that tools are cached for.
    pub fn list_cached_tools(&self) -> (r: Reply)
        ensures
            r.carries(200, json::list_object(self.tool_cache@)),
    {
        Reply::json(200, &Json::from_lists(&self.tool_cache.get_all()))
    }

    /// Whether there is an upstream whose tools can be fetched.
    pub fn refresh_upstream_tools(&self, upstream_name: &str) -> (r: Result<(), Reply>)
        ensures
            if self.upstreams@.contains_key(upstream_name@) {
                r is Ok
            } else {
                r matches Err(reply) && reply.says(
                    404,
                    "upstream '"@ + upstream_name@ + "' not found"@,
                )
            },
    {
        if self.upstreams.contains_key(upstream_name) {
            return Ok(());
        }
        let words = "upstream '".to_owned().concat(upstream_name).concat("' not found");
        Err(Reply::text(404, words.as_str()))
    }

    /// Keeps the tools that were fetched from an upstream and answers with them, or answers with
    /// the reason why there are none.
    pub fn tools_fetched(&mut self, upstream_name: &str, fetched: Result<Vec<Json>, String>) -> (r:
        Reply)
        ensures
            old(self).takes_tools(upstream_name@, fetched, *final(self), r),
    {
        if let Err(reason) = self.tool_cache.refresh_upstream(upstream_name, fetched) {
            return fetch_failed(reason.as_str());
        }
        let found = match self.tool_cache.get_tools(upstream_name) {
            Some(found) => found,
            None => Vec::new(),
        };
        let ghost listed = found.deep_view();
        let mut fields: Vec<(String, Json)> = Vec::new();
        fields.push(("upstream".to_owned(), Json::text(upstream_name)));
        proof {
            json::lemma_deep_trees(&found);
        }
        fields.push(("tools".to_owned(), Json::Array(found)));
        proof {
            json::lemma_field_trees(fields@);
            assert(json::field_trees(fields@) =~= seq![
                ("upstream"@, JsonTree::Text(upstream_name@)),
                ("tools"@, JsonTree::Array(listed)),
            ]);
        }
        Reply::json(200, &Json::object(fields))
    }
}

/// The answer that lists the tools that were fetched.
pub open spec fn fetched_tree(upstream: Seq<char>, found: Seq<JsonTree>) -> JsonTree {
    JsonTree::Object(
        json::fields_map(
            seq![("upstream"@, JsonTree::Text(upstream)), ("tools"@, JsonTree::Array(found))],
        ),
    )
}

/// The answer where the tools of an upstream could not be fetched.
pub fn fetch_failed(reason: &str) -> (r: Reply)
    ensures
        r.says(502, "failed to fetch tools: "@ + reason@),
{
    Reply::text(502, "failed to fetch tools: ".to_owned().concat(reason).as_str())
}

/// The answer where the body of a request could not be read.
pub fn unreadable_body(reason: &str) -> (r: Reply)
    ensures
        r.says(400, "failed to read body: "@ + reason@),
{
    Reply::text(400, "failed to read body: ".to_owned().concat(reason).as_str())
}

/// The answer where a request could not be forwarded.
pub fn proxy_failed(reason: &str) -> (r: Reply)
    ensures
        r.says(502, "proxy error: "@ + reason@),
{
    Reply::text(502, "proxy error: ".to_owned().concat(reason).as_str())
}

/// What is to be done with a request to an upstream.
pub enum ProxyPlan {
    /// Answer it and do not forward it.
    Answer(Reply),
    /// Forward it to the target. Its message names the given method.
    Forward { target: Target, method: Option<String> },
}

/// What is to be done with a request whose body reads as `msg`.
pub open spec fn planned(
    msg: Option<JsonTree>,
    upstream: Seq<char>,
    profile: Option<ProfileView>,
    target: (Seq<char>, Option<Seq<char>>),
    r: ProxyPlan,
) -> bool {
    let refused = match (msg, profile) {
        (Some(m), Some(p)) => tools::refused_tool(m, p.allowed(upstream)),
        _ => None,
    };
    match refused {
        Some(tool) => r matches ProxyPlan::Answer(reply) && reply.carries(
            200,
            tools::refusal(msg->0, tool, profile->0.name),
        ),
        None => {
            &&& r matches ProxyPlan::Forward { target: t, method }
            &&& t.deep_view() == target
            &&& method.deep_view() == match msg {
                Some(m) => tools::method_of(m),
                None => None,
            }
        },
    }
}

/// Decides on a request to an upstream, from its body, or the reason why that could not be read.
/// Through a profile, calls of tools that it does not allow are refused.
pub fn proxy_with_filter(
    upstream_name: &str,
    body: Result<&[u8], String>,
    remaining: &str,
    profile: Option<&Profile>,
) -> (r: ProxyPlan)
    ensures
        match body {
            Err(reason) => r matches ProxyPlan::Answer(reply) && reply.says(
                400,
                "failed to read body: "@ + reason@,
            ),
            Ok(bytes) => planned(
                json::json_parsed(bytes@),
                upstream_name@,
                match profile {
                    Some(p) => Some(p.deep_view()),
                    None => None,
                },
                http_upstream::target_of(http_upstream::uri_parts(remaining@)),
                r,
            ),
        },
{
    match body {
        Err(reason) => ProxyPlan::Answer(unreadable_body(reason.as_str())),
        Ok(bytes) => match tools::inspect_request(bytes, upstream_name, profile) {
            Inspection::Refuse(answer) => ProxyPlan::Answer(Reply::json(200, &answer)),
            Inspection::Forward { method } => ProxyPlan::Forward {
                target: http_upstream::rewrite_uri(remaining),
                method,
            },
        },
    }
}

impl AppState {
    /// What becomes of `self` when the upstream `name` answers that it is not authorized.
    pub open spec fn renews_auth(self, name: Seq<char>, after: AppState) -> bool {
        if self.upstreams@.contains_key(name) {
            &&& after.differs_in_auth(self, name)
            &&& after.upstreams@[name].auth.is_evicted(self.upstreams@[name].auth)
            &&& forall|now: u64| (#[trigger] after.upstreams@[name].auth.headers(now)) is None
        } else {
            &&& after.upstreams@ == self.upstreams@
            &&& after.tool_cache == self.tool_cache
            &&& after.profile_store == self.profile_store
        }
    }

    /// What becomes of `self` when the upstream `name` answers a message of the given method, and
    /// what is to be done with the answer.
    pub open spec fn takes_response(
        self,
        name: Seq<char>,
        status: u16,
        method: Option<Seq<char>>,
        content_type: Option<Seq<char>>,
        after: AppState,
        r: ResponsePlan,
    ) -> bool {
        &&& r.refresh_auth == (status == 401)
        &&& r.read_body == (method == Some("tools/list"@) && tools::json_content(content_type))
        &&& if status == 401 {
            self.renews_auth(name, after)
        } else {
            after == self
        }
    }

    /// Takes in the status, the method and the content type of an answer of the upstream `name`:
    /// after a 401 its authentication is renewed.
    pub fn response_received(
        &mut self,
        name: &str,
        status: u16,
        method: Option<&str>,
        content_type: Option<&str>,
    ) -> (r: ResponsePlan)
        ensures
            old(self).takes_response(
                name@,
                status,
                match method {
                    Some(m) => Some(m@),
                    None => None,
                },
                match content_type {
                    Some(ct) => Some(ct@),
                    None => None,
                },
                *final(self),
                r,
            ),
    {
        let plan = tools::plan_response(status, method, content_type);
        if plan.refresh_auth {
            self.handle_unauthorized(name);
        }
        plan
    }

    /// The body to hand on for a JSON answer of the upstream `name` to `tools/list`, from its body,
    /// or `None` where that could not be read.
    pub fn tools_listed(&mut self, name: &str, profile: Option<&Profile>, body: Option<Vec<u8>>) -> (r:
        Vec<u8>)
        ensures
            final(self).upstreams == old(self).upstreams,
            final(self).profile_store == old(self).profile_store,
            tools::finished(
                old(self).tool_cache@,
                name@,
                match profile {
                    Some(p) => Some(p.deep_view()),
                    None => None,
                },
                match body {
                    Some(bytes) => Some(bytes@),
                    None => None,
                },
                final(self).tool_cache@,
                r@,
            ),
    {
        tools::finish_response(&mut self.tool_cache, name, profile, body)
    }
}

/// Why an upstream cannot be reached.
#[derive(Debug, Clone, Copy, PartialEq, Eq, Structural)]
pub enum TransportError {
    HttpNotConfigured,
    StdioNotConfigured,
}

impl TransportError {
    /// The words for this error.
    pub open spec fn words(self) -> Seq<char> {
        match self {
            TransportError::HttpNotConfigured => "HTTP upstream not configured"@,
            TransportError::StdioNotConfigured => "stdio upstream not configured"@,
        }
    }

    /// The words for this error.
    pub fn message(&self) -> (r: String)
        ensures
            r@ == self.words(),
    {
        match self {
            TransportError::HttpNotConfigured => "HTTP upstream not configured".to_owned(),
            TransportError::StdioNotConfigured => "stdio upstream not configured".to_owned(),
        }
    }
}

/// The way to an upstream.
pub enum Transport<'a> {
    Http(&'a HttpUpstream),
    Stdio(&'a StdioUpstream),
}

impl UpstreamState {
    /// The way to this upstream.
    pub fn do_proxy(&self) -> (r: Result<Transport<'_>, TransportError>)
        ensures
            match self.transport {
                TransportType::Http => match self.http {
                    Some(http) => r matches Ok(Transport::Http(h)) && *h == http,
                    None => r == Err::<Transport<'_>, TransportError>(
                        TransportError::HttpNotConfigured,
                    ),
                },
                TransportType::Stdio => match self.stdio {
                    Some(stdio) => r matches Ok(Transport::Stdio(s)) && *s == stdio,
                    None => r == Err::<Transport<'_>, TransportError>(
                        TransportError::StdioNotConfigured,
                    ),
                },
            },
    {
        match self.transport {
            TransportType::Http => match &self.http {
                Some(http) => Ok(Transport::Http(http)),
                None => Err(TransportError::HttpNotConfigured),
            },
            TransportType::Stdio => match &self.stdio {
                Some(stdio) => Ok(Transport::Stdio(stdio)),
                None => Err(TransportError::StdioNotConfigured),
            },
        }
    }

    /// This is the upstream that `config` describes.
    pub open spec fn built_from(self, config: UpstreamConfig) -> bool {
        &&& self.name@ == text::strip_leading(config.path_prefix@, '/')
        &&& self.transport == config.transport
        &&& auth::made_from(self.auth, config.auth, config.name@)
        &&& match config.transport {
            TransportType::Http => {
                &&& self.http matches Some(http) && http.base_url@ == text::strip_trailing(
                    config.url->0@,
                    '/',
                )
                &&& self.stdio is None
            },
            TransportType::Stdio => {
                &&& self.http is None
                &&& self.stdio matches Some(stdio)
                &&& stdio.upstream_name == config.name
                &&& stdio.command == config.command->0
                &&& stdio.args.deep_view() == config.args.deep_view()
                &&& stdio.env@ == config.env@
                &&& stdio.log_mcp_traffic == config.log_mcp_traffic
            },
        }
    }

    /// The upstream that a configuration describes which meets the rules.
    pub fn build(config: &UpstreamConfig) -> (r: UpstreamState)
        requires
            config.fault() is None,
        ensures
            r.built_from(*config),
    {
        let strategy = match auth::create_auth_strategy(&config.auth, config.name.as_str()) {
            Ok(strategy) => strategy,
            Err(_) => {
                proof {
                    auth::law_valid_upstream_has_strategy(*config);
                }
                vstd::pervasive::unreached()
            },
        };
        let http = match (config.transport, &config.url) {
            (TransportType::Http, Some(url)) => Some(HttpUpstream::new(url.clone())),
            _ => None,
        };
        let stdio = match (config.transport, &config.command) {
            (TransportType::Stdio, Some(command)) => Some(
                StdioUpstream::new(
                    config.name.clone(),
                    command.clone(),
                    settings::duplicate_texts(&config.args),
                    config.env.duplicate(),
                    config.log_mcp_traffic,
                ),
            ),
            _ => None,
        };
        UpstreamState {
            name: text::trim_start_matches(config.path_prefix.as_str(), '/').to_owned(),
            transport: config.transport,
            auth: strategy,
            http,
            stdio,
        }
    }
}

/// An upstream that was built from a configuration which meets the rules can be reached.
pub proof fn law_valid_upstream_is_reachable(config: UpstreamConfig, upstream: UpstreamState)
    requires
        config.fault() is None,
        upstream.built_from(config),
    ensures
        upstream.transport == TransportType::Http ==> upstream.http is Some,
        upstream.transport == TransportType::Stdio ==> upstream.stdio is Some,
{
}

impl AppState {
    /// Nothing but the authentication to the upstream `name` differs from `other`.
    pub open spec fn differs_in_auth(self, other: AppState, name: Seq<char>) -> bool {
        &&& self.tool_cache == other.tool_cache
        &&& self.profile_store == other.profile_store
        &&& self.upstreams@.contains_key(name)
        &&& other.upstreams@.contains_key(name)
        &&& self.upstreams@ == other.upstreams@.insert(
            name,
            UpstreamState { auth: self.upstreams@[name].auth, ..other.upstreams@[name] },
        )
    }

    /// What becomes of `self` and of a walk when `event` has come for the upstream `name`.
    pub open spec fn supplies(
        self,
        name: Seq<char>,
        run: HeaderRun,
        event: AuthEvent,
        now: u64,
        after: AppState,
        run_after: HeaderRun,
        r: Option<TokenAction>,
    ) -> bool {
        if self.upstreams@.contains_key(name) {
            &&& after.differs_in_auth(self, name)
            &&& self.upstreams@[name].auth.supplied(
                run,
                event,
                now,
                after.upstreams@[name].auth,
                run_after,
                r,
            )
        } else {
            &&& run_after == run
            &&& r is None
            &&& after.upstreams@ == self.upstreams@
            &&& after.tool_cache == self.tool_cache
            &&& after.profile_store == self.profile_store
        }
    }

    /// What a walk for the upstream `name` comes to at the time `now`.
    pub open spec fn walks(
        self,
        name: Seq<char>,
        run: HeaderRun,
        now: u64,
        run_after: HeaderRun,
        r: Option<AuthNeed>,
    ) -> bool {
        match r {
            None => !self.upstreams@.contains_key(name) && run_after == run,
            Some(need) => {
                &&& self.upstreams@.contains_key(name)
                &&& self.upstreams@[name].auth.collects(run, now, run_after, need)
            },
        }
    }

    /// Collects the headers for a request to the upstream `name` that are at hand at the time
    /// `now`, up to the first part of its authentication that needs something. `None` where there
    /// is no such upstream.
    pub fn get_auth_headers(&self, name: &str, run: &mut HeaderRun, now: u64) -> (r: Option<AuthNeed>)
        ensures
            self.walks(name@, *old(run), now, *final(run), r),
    {
        match self.upstreams.get(name) {
            Some(upstream) => Some(upstream.auth.collect(run, now)),
            None => None,
        }
    }

    /// Takes in what came of what the authentication to the upstream `name` needed.
    pub fn supply_auth(&mut self, name: &str, run: &mut HeaderRun, event: AuthEvent, now: u64) -> (r:
        Option<TokenAction>)
        ensures
            old(self).supplies(name@, *old(run), event, now, *final(self), *final(run), r),
    {
        let ghost before = self.upstreams@;
        match self.upstreams.take(name) {
            Some(mut upstream) => {
                let r = upstream.auth.supply(run, event, now);
                self.upstreams.insert(name.to_owned(), upstream);
                assert(self.upstreams@ =~= before.insert(name@, upstream));
                r
            },
            None => {
                assert(self.upstreams@ =~= before);
                None
            },
        }
    }

    /// Called when the upstream `name` returns 401: none of its headers are at hand until they are
    /// got anew.
    pub fn handle_unauthorized(&mut self, name: &str)
        ensures
            old(self).renews_auth(name@, *final(self)),
    {
        let ghost before = self.upstreams@;
        match self.upstreams.take(name) {
            Some(mut upstream) => {
                upstream.auth.handle_unauthorized();
                self.upstreams.insert(name.to_owned(), upstream);
                assert(self.upstreams@ =~= before.insert(name@, upstream));
            },
            None => {
                assert(self.upstreams@ =~= before);
            },
        }
    }
}

/// The segments of a path of one segment and of a path of two.
pub proof fn law_two_segments(first: Seq<char>, second: Seq<char>)
    requires
        first.len() > 0,
        second.len() > 0,
        !first.contains('/'),
        !second.contains('/'),
    ensures
        segments_of(seq!['/'] + first) == seq![first],
        segments_of((seq!['/'] + first).push('/') + second) == seq![first, second],
{
    let root = Seq::<char>::empty();
    assert(root.push('/') + first =~= seq!['/'] + first);
    text::lemma_split_last(root, '/', first);
    text::lemma_split_last(seq!['/'] + first, '/', second);
    let one = seq![root].push(first);
    let two = one.push(second);
    assert(text::split(root, '/') =~= seq![root]);
    assert(one.drop_last() =~= seq![root]);
    assert(two.drop_last() =~= one);
    assert(seq![root].drop_last() =~= Seq::empty());
    assert(text::non_empty(Seq::<Seq<char>>::empty()) =~= Seq::empty());
    assert(seq![root].last() == root);
    assert(text::non_empty(seq![root]) =~= Seq::empty());
    assert(text::non_empty(one) =~= seq![first]);
    assert(text::non_empty(two) =~= seq![first, second]);
}

/// A profile whose name is a segment of a path limits the upstreams under it as soon as it stands:
/// a request to `/name/upstream` is forwarded to the upstream with that profile.
pub proof fn law_profile_is_routable(
    name: Seq<char>,
    upstream: Seq<char>,
    query: Option<Seq<char>>,
    profiles: Map<Seq<char>, ProfileView>,
    upstreams: Map<Seq<char>, UpstreamState>,
    r: Route,
)
    requires
        name.len() > 0,
        upstream.len() > 0,
        !name.contains('/'),
        !upstream.contains('/'),
        profiles.contains_key(name),
        upstreams.contains_key(upstream),
        routed(
            segments_of((seq!['/'] + name).push('/') + upstream),
            query,
            profiles,
            upstreams,
            r,
        ),
    ensures
        r matches Route::Forward { upstream: u, profile, .. } && u@ == upstream && (profile matches
            Some(p) && p.deep_view() == profiles[name]),
{
    law_two_segments(name, upstream);
}

/// Under the name of a profile only the upstreams are reachable, and each only with that profile:
/// no request under it is forwarded without the profile's limits.
pub proof fn law_profile_prefix_is_limited(
    segments: Seq<Seq<char>>,
    query: Option<Seq<char>>,
    profiles: Map<Seq<char>, ProfileView>,
    upstreams: Map<Seq<char>, UpstreamState>,
    r: Route,
)
    requires
        segments.len() > 0,
        profiles.contains_key(segments[0]),
        routed(segments, query, profiles, upstreams, r),
    ensures
        r matches Route::Forward { profile, .. } ==> (profile matches Some(p) && p.deep_view()
            == profiles[segments[0]]),
{
}

/// The segments of a path are what stands between its slashes: a slash separates the segments on
/// its two sides, a text without a slash is one segment, and an empty one is none.
pub proof fn law_segments(a: Seq<char>, b: Seq<char>)
    ensures
        segments_of(a.push('/') + b) == segments_of(a) + segments_of(b),
        !b.contains('/') && b.len() > 0 ==> segments_of(b) == seq![b],
        segments_of(Seq::empty()).len() == 0,
{
    text::law_non_empty_between(a, '/', b);
    let none = Seq::<char>::empty();
    text::lemma_split_single(none, '/');
    lemma_single_segment(none);
    if !b.contains('/') && b.len() > 0 {
        text::lemma_split_single(b, '/');
        lemma_single_segment(b);
    }
}

/// The segments of a single piece.
proof fn lemma_single_segment(s: Seq<char>)
    ensures
        text::non_empty(seq![s]) == if s.len() > 0 {
            seq![s]
        } else {
            Seq::<Seq<char>>::empty()
        },
{
    assert(seq![s].drop_last() =~= Seq::empty());
    assert(text::non_empty(Seq::<Seq<char>>::empty()) =~= Seq::empty());
    assert(seq![s].last() == s);
    assert(text::non_empty(seq![s]) =~= if s.len() > 0 {
        seq![s]
    } else {
        Seq::<Seq<char>>::empty()
    });
}

/// The path that is left has exactly the segments that are left, each behind a slash, and the query
/// behind a question mark; where no segment is left it is a slash.
pub proof fn law_remaining_path(segments: Seq<Seq<char>>, query: Seq<char>)
    requires
        forall|i: int|
            0 <= i < segments.len() ==> (#[trigger] segments[i]).len() > 0 && !segments[i].contains(
                '/',
            ),
    ensures
        segments_of(remaining_path(segments, None)) == segments,
        remaining_path(segments, None).len() > 0,
        remaining_path(segments, None)[0] == '/',
        remaining_path(segments, Some(query)) == remaining_path(segments, None).push('?') + query,
        segments.len() == 0 ==> remaining_path(segments, None) == seq!['/'],
        segments.len() == 1 ==> remaining_path(segments, None) == seq!['/'] + segments[0],
        segments.len() > 1 ==> remaining_path(segments, None) == remaining_path(
            segments.drop_last(),
            None,
        ).push('/') + segments.last(),
    decreases segments.len(),
{
    reveal_strlit("/");
    reveal_strlit("?");
    let none = Seq::<char>::empty();
    let path = remaining_path(segments, None);
    assert("/"@ =~= seq!['/']);
    assert(remaining_path(segments, Some(query)) =~= path.push('?') + query);
    if segments.len() == 0 {
        law_segments(none, none);
        assert(none.push('/') + none =~= seq!['/']);
        assert(segments_of(path) =~= segments);
    } else if segments.len() == 1 {
        assert(path =~= seq!['/'] + segments[0]);
        law_segments(none, segments[0]);
        assert(none.push('/') + segments[0] =~= path);
        assert(segments_of(path) =~= segments);
    } else {
        let before = segments.drop_last();
        let last = segments.last();
        assert forall|i: int| 0 <= i < before.len() implies (#[trigger] before[i]).len() > 0
            && !before[i].contains('/') by {
            assert(before[i] == segments[i]);
        }
        law_remaining_path(before, query);
        let shorter = remaining_path(before, None);
        assert(path =~= shorter.push('/') + last);
        assert(segments[segments.len() - 1] == last);
        law_segments(shorter, last);
        assert(segments_of(path) =~= segments);
    }
}

/// A path and the path that is left when its first segment names an upstream lead to the same
/// segments below the upstream.
pub proof fn law_upstream_prefix_is_taken_off(
    name: Seq<char>,
    rest: Seq<Seq<char>>,
    query: Option<Seq<char>>,
    profiles: Map<Seq<char>, ProfileView>,
    upstreams: Map<Seq<char>, UpstreamState>,
    r: Route,
)
    requires
        upstreams.contains_key(name),
        !profiles.contains_key(name),
        routed(seq![name] + rest, query, profiles, upstreams, r),
    ensures
        r matches Route::Forward { upstream, remaining, profile } && upstream@ == name
            && profile is None && remaining@ == remaining_path(rest, query),
{
    let segments = seq![name] + rest;
    assert(segments[0] == name);
    assert(segments.skip(1) =~= rest);
}

/// Below the name of a profile and that of an upstream, the path that is left is what stands there.
pub proof fn law_profile_prefix_is_taken_off(
    profile_name: Seq<char>,
    name: Seq<char>,
    rest: Seq<Seq<char>>,
    query: Option<Seq<char>>,
    profiles: Map<Seq<char>, ProfileView>,
    upstreams: Map<Seq<char>, UpstreamState>,
    r: Route,
)
    requires
        profiles.contains_key(profile_name),
        upstreams.contains_key(name),
        routed(seq![profile_name, name] + rest, query, profiles, upstreams, r),
    ensures
        r matches Route::Forward { upstream, remaining, profile } && upstream@ == name && (
        profile matches Some(p) && p.deep_view() == profiles[profile_name]) && remaining@
            == remaining_path(rest, query),
{
    let segments = seq![profile_name, name] + rest;
    assert(segments[0] == profile_name && segments[1] == name);
    assert(segments.skip(2) =~= rest);
}

/// A request is answered without an upstream exactly when its path leads to none: with 400 where it
/// ends at the name of a profile, and with 404 otherwise.
pub proof fn law_answered_without_upstream(
    segments: Seq<Seq<char>>,
    query: Option<Seq<char>>,
    profiles: Map<Seq<char>, ProfileView>,
    upstreams: Map<Seq<char>, UpstreamState>,
    r: Route,
)
    requires
        routed(segments, query, profiles, upstreams, r),
    ensures
        r is Answer <==> {
            ||| segments.len() == 0
            ||| profiles.contains_key(segments[0]) && !(segments.len() > 1
                && upstreams.contains_key(segments[1]))
            ||| !profiles.contains_key(segments[0]) && !upstreams.contains_key(segments[0])
        },
        r matches Route::Answer(reply) ==> {
            &&& reply.body is Text
            &&& reply.status == if segments.len() == 1 && profiles.contains_key(segments[0]) {
                400u16
            } else {
                404u16
            }
            &&& reply.body->Text_0@ == if segments.len() == 1 && profiles.contains_key(
                segments[0],
            ) {
                "profile prefix requires an upstream path segment"@
            } else {
                "no upstream configured for this path prefix"@
            }
        },
{
}

/// A request through a profile whose body calls a tool that the profile does not list for the
/// upstream is answered with the refusal and not forwarded, whatever else stands in the body; any
/// other request is forwarded to its target.
pub proof fn law_disallowed_call_is_answered(
    msg: Option<JsonTree>,
    tool: Seq<char>,
    upstream: Seq<char>,
    profile: Option<ProfileView>,
    target: (Seq<char>, Option<Seq<char>>),
    r: ProxyPlan,
)
    requires
        planned(msg, upstream, profile, target, r),
    ensures
        msg is Some && profile is Some && tools::is_call_of(msg->0, tool) && !(
        profile->0.allowed_tools.contains_key(upstream)
            && profile->0.allowed_tools[upstream].contains(tool)) ==> (r matches ProxyPlan::Answer(
            reply,
        ) && reply.status == 200 && reply.carries(
            200,
            tools::refusal(msg->0, tool, profile->0.name),
        )),
        msg is None || profile is None || (forall|t: Seq<char>| !tools::is_call_of(msg->0, t))
            ==> r is Forward,
        msg is Some && profile is Some && tools::is_call_of(msg->0, tool)
            && profile->0.allowed_tools.contains_key(upstream)
            && profile->0.allowed_tools[upstream].contains(tool) ==> r is Forward,
        r matches ProxyPlan::Forward { target: t, method } ==> t.path@ == target.0,
{
    if msg is Some && profile is Some {
        tools::law_refused_iff_disallowed_call(msg->0, tool, profile->0.allowed(upstream));
    }
}

/// A profile is refused exactly when its name is that of an upstream, is reserved, or is not
/// well-formed; with 409 for the first two and 400 for the last.
pub proof fn law_refused_profile(
    name: Seq<char>,
    upstreams: Map<Seq<char>, UpstreamState>,
    well_formed: bool,
)
    ensures
        creation_fault(name, upstreams, well_formed) is None <==> !upstreams.contains_key(name)
            && name != "settings"@ && well_formed,
        upstreams.contains_key(name) ==> creation_fault(name, upstreams, well_formed) == Some(
            (409u16, "profile name conflicts with an upstream name"@),
        ),
        !upstreams.contains_key(name) && name == "settings"@ ==> creation_fault(
            name,
            upstreams,
            well_formed,
        ) == Some((409u16, "profile name 'settings' is reserved"@)),
        !upstreams.contains_key(name) && name != "settings"@ && !well_formed ==> creation_fault(
            name,
            upstreams,
            well_formed,
        ) == Some(
            (
                400u16,
                "profile name must be non-empty and contain only alphanumeric characters, hyphens, or underscores"@,
            ),
        ),
{
}

/// A name is well-formed exactly when it is not empty and none of its characters is one that is
/// neither alphanumeric nor a hyphen nor an underscore; so are two well-formed names together.
pub proof fn law_well_formed_name(a: Seq<char>, b: Seq<char>, c: char)
    ensures
        !well_formed_name(Seq::empty()),
        well_formed_name(seq![c]) <==> text::alphanumeric(c) || c == '-' || c == '_',
        a.len() > 0 && b.len() > 0 ==> (well_formed_name(a + b) <==> well_formed_name(a)
            && well_formed_name(b)),
{
    assert(seq![c][0] == c);
    if a.len() > 0 && b.len() > 0 {
        let whole = a + b;
        if well_formed_name(whole) {
            assert forall|i: int| 0 <= i < a.len() implies text::alphanumeric(#[trigger] a[i])
                || a[i] == '-' || a[i] == '_' by {
                assert(whole[i] == a[i]);
            }
            assert forall|i: int| 0 <= i < b.len() implies text::alphanumeric(#[trigger] b[i])
                || b[i] == '-' || b[i] == '_' by {
                assert(whole[a.len() + i] == b[i]);
            }
        }
        if well_formed_name(a) && well_formed_name(b) {
            assert forall|i: int| 0 <= i < whole.len() implies text::alphanumeric(
                #[trigger] whole[i],
            ) || whole[i] == '-' || whole[i] == '_' by {
                if i < a.len() {
                    assert(whole[i] == a[i]);
                } else {
                    assert(whole[i] == b[i - a.len()]);
                }
            }
        }
    }
}

/// The answer to a refresh names the upstream and lists the tools that were fetched, all of them.
pub proof fn law_fetched_answer(upstream: Seq<char>, found: Seq<JsonTree>)
    ensures
        fetched_tree(upstream, found).field("upstream"@) == Some(JsonTree::Text(upstream)),
        fetched_tree(upstream, found).field("tools"@) == Some(JsonTree::Array(found)),
{
    reveal_strlit("upstream");
    reveal_strlit("tools");
    let fields = seq![("upstream"@, JsonTree::Text(upstream)), ("tools"@, JsonTree::Array(found))];
    assert("upstream"@.len() == 8 && "tools"@.len() == 5);
    json::lemma_fields_map_last(fields, 0);
    json::lemma_fields_map_last(fields, 1);
}

/// A change of the authentication to one upstream leaves the other upstreams as they were, and of
/// that upstream everything else.
pub proof fn law_only_auth_differs(
    before: AppState,
    after: AppState,
    name: Seq<char>,
    other: Seq<char>,
)
    requires
        after.differs_in_auth(before, name),
    ensures
        after.upstreams@.contains_key(other) == before.upstreams@.contains_key(other),
        other != name && before.upstreams@.contains_key(other) ==> after.upstreams@[other]
            == before.upstreams@[other],
        after.upstreams@[name].name == before.upstreams@[name].name,
        after.upstreams@[name].transport == before.upstreams@[name].transport,
        after.upstreams@[name].http == before.upstreams@[name].http,
        after.upstreams@[name].stdio == before.upstreams@[name].stdio,
        after.tool_cache == before.tool_cache,
        after.profile_store == before.profile_store,
{
}

/// Of the upstreams that share a name the last one is kept, and every one that shares its name with
/// no later one is.
pub proof fn law_last_upstream_stands(upstreams: Seq<UpstreamState>, i: int)
    requires
        0 <= i < upstreams.len(),
        forall|j: int|
            i < j < upstreams.len() ==> (#[trigger] upstreams[j]).name@ != upstreams[i].name@,
    ensures
        name_map::entries_map(named_upstreams(upstreams)).contains_key(upstreams[i].name@),
        name_map::entries_map(named_upstreams(upstreams))[upstreams[i].name@] == upstreams[i],
    decreases upstreams.len(),
{
    let entries = named_upstreams(upstreams);
    let last = upstreams.last();
    let before = upstreams.drop_last();
    assert(entries =~= named_upstreams(before).push((last.name@, last)));
    name_map::law_last_entry_stands(named_upstreams(before), last.name@, last, upstreams[i].name@);
    if i < upstreams.len() - 1 {
        assert(upstreams[upstreams.len() - 1].name@ != upstreams[i].name@);
        assert forall|j: int| i < j < before.len() implies (#[trigger] before[j]).name@
            != before[i].name@ by {
            assert(before[j] == upstreams[j]);
        }
        law_last_upstream_stands(before, i);
    }
}

/// An upstream is reached under its path prefix without the slashes that this starts with, and is
/// what its configuration describes.
pub proof fn law_built_upstream(
    config: UpstreamConfig,
    upstream: UpstreamState,
    name: Seq<char>,
    url: Seq<char>,
    m: nat,
    n: nat,
)
    requires
        config.fault() is None,
        upstream.built_from(config),
        name.len() == 0 || name.first() != '/',
        config.path_prefix@ == text::repeated('/', m) + name,
        url.len() == 0 || url.last() != '/',
        config.transport is Http ==> config.url->0@ == url + text::repeated('/', n),
    ensures
        upstream.name@ == name,
        upstream.transport == config.transport,
        config.transport is Http ==> upstream.stdio is None && upstream.http is Some
            && upstream.http->0.base_url@ == url,
        config.transport is Stdio ==> upstream.http is None && upstream.stdio is Some && ({
            let stdio = upstream.stdio->0;
            &&& stdio.command == config.command->0
            &&& stdio.args.deep_view() == config.args.deep_view()
            &&& stdio.env@ == config.env@
            &&& stdio.upstream_name == config.name
            &&& stdio.log_mcp_traffic == config.log_mcp_traffic
        }),
        config.auth.method is Static ==> upstream.auth.primary is Static,
        config.auth.method is OAuth ==> upstream.auth.primary is OAuth,
        upstream.auth.extras@.len() == config.auth.extra_headers@.len(),
{
    text::law_strip(name, '/', m);
    text::law_strip(url, '/', n);
}

/// A profile that was created is given under its name as it is, with 201 and itself in answer; the
/// other profiles, and all else, stay as they were.
pub proof fn law_created_profile_is_given(
    before: AppState,
    profile: Profile,
    after: AppState,
    r: Result<(u16, Profile), Reply>,
    name: &str,
    found: Result<Profile, Reply>,
)
    requires
        before.creates(profile, after, r),
        call_ensures(AppState::get_profile, (&after, name), found),
    ensures
        r is Ok <==> !before.upstreams@.contains_key(profile.name@) && profile.name@ != "settings"@
            && well_formed_name(profile.name@),
        r matches Ok((status, created)) ==> status == 201 && created.deep_view()
            == profile.deep_view(),
        r is Ok && name@ == profile.name@ ==> found is Ok && found->Ok_0.deep_view()
            == profile.deep_view(),
        r is Err || name@ != profile.name@ ==> (found is Ok
            <==> before.profile_store@.contains_key(name@)),
        (r is Err || name@ != profile.name@) && found is Ok ==> found->Ok_0.deep_view()
            == before.profile_store@[name@],
        found matches Err(reply) ==> reply.status == 404 && reply.body is Text
            && reply.body->Text_0@ == "profile not found"@,
        after.upstreams == before.upstreams,
        after.tool_cache == before.tool_cache,
        after.profile_store.path() == before.profile_store.path(),
{
    law_refused_profile(
        profile.name@,
        before.upstreams@,
        well_formed_name(profile.name@),
    );
}

/// A profile that was updated is given under the name it was updated under, whatever name it
/// brought, with the tools that it brought; the other profiles, and all else, stay as they were.
pub proof fn law_updated_profile_is_given(
    before: AppState,
    under: Seq<char>,
    profile: Profile,
    after: AppState,
    r: Profile,
    name: &str,
    found: Result<Profile, Reply>,
)
    requires
        before.updates(under, profile, after, r),
        call_ensures(AppState::get_profile, (&after, name), found),
    ensures
        r.name@ == under,
        r.allowed_tools@ == profile.allowed_tools@,
        name@ == under ==> found is Ok && found->Ok_0.name@ == under
            && found->Ok_0.allowed_tools@ == profile.allowed_tools@,
        name@ != under ==> (found is Ok <==> before.profile_store@.contains_key(name@)),
        name@ != under && found is Ok ==> found->Ok_0.deep_view() == before.profile_store@[name@],
        after.upstreams == before.upstreams,
        after.tool_cache == before.tool_cache,
{
    assert(r.deep_view().name == r.name@);
    assert(r.deep_view().allowed_tools == r.allowed_tools@);
    assert(profile.deep_view().allowed_tools == profile.allowed_tools@);
    if name@ == under {
        assert(found->Ok_0.deep_view() == r.deep_view());
        assert(found->Ok_0.deep_view().name == found->Ok_0.name@);
        assert(found->Ok_0.deep_view().allowed_tools == found->Ok_0.allowed_tools@);
    }
}

/// A profile that was deleted is not given any more and cannot be deleted again; the other profiles,
/// and all else, stay as they were.
pub proof fn law_deleted_profile_is_gone(
    before: AppState,
    gone: Seq<char>,
    after: AppState,
    r: Result<u16, Reply>,
    last: AppState,
    again: Result<u16, Reply>,
    name: &str,
    found: Result<Profile, Reply>,
)
    requires
        before.deletes(gone, after, r),
        after.deletes(gone, last, again),
        call_ensures(AppState::get_profile, (&after, name), found),
    ensures
        r is Ok <==> before.profile_store@.contains_key(gone),
        r matches Ok(status) ==> status == 204,
        r matches Err(reply) ==> reply.status == 404 && reply.body is Text && reply.body->Text_0@
            == "profile not found"@,
        again is Err,
        name@ == gone ==> found is Err,
        name@ != gone ==> (found is Ok <==> before.profile_store@.contains_key(name@)),
        name@ != gone && found is Ok ==> found->Ok_0.deep_view() == before.profile_store@[name@],
        after.upstreams == before.upstreams,
        after.tool_cache == before.tool_cache,
{
}

/// Tools that were fetched are cached for their upstream and answered with; where none were, the
/// reason is told and the cache stays. The tools of the other upstreams stay in any case.
pub proof fn law_fetched_tools_are_cached(
    before: AppState,
    name: Seq<char>,
    fetched: Result<Vec<Json>, String>,
    after: AppState,
    r: Reply,
    other: Seq<char>,
)
    requires
        before.takes_tools(name, fetched, after, r),
    ensures
        fetched is Ok ==> after.tool_cache@.contains_key(name) && after.tool_cache@[name]
            == fetched->Ok_0.deep_view(),
        fetched is Ok ==> r.status == 200 && r.body is Json && r.body->Json_0@ == json::json_text(
            fetched_tree(name, fetched->Ok_0.deep_view()),
        ),
        fetched matches Err(reason) ==> r.status == 502 && r.body is Text && r.body->Text_0@
            == "failed to fetch tools: "@ + reason@,
        fetched is Err || other != name ==> (after.tool_cache@.contains_key(other)
            <==> before.tool_cache@.contains_key(other)),
        (fetched is Err || other != name) && before.tool_cache@.contains_key(other)
            ==> after.tool_cache@[other] == before.tool_cache@[other],
        after.upstreams == before.upstreams,
        after.profile_store == before.profile_store,
{
}

/// After a 401 the headers of the upstream are got anew, and those of no other upstream; any other
/// status changes nothing. A body is read exactly where it is a JSON answer to `tools/list`.
pub proof fn law_unauthorized_answer(
    before: AppState,
    name: Seq<char>,
    status: u16,
    method: Option<Seq<char>>,
    content_type: Option<Seq<char>>,
    after: AppState,
    r: ResponsePlan,
    other: Seq<char>,
    now: u64,
)
    requires
        before.takes_response(name, status, method, content_type, after, r),
        before.upstreams@.contains_key(name),
    ensures
        r.refresh_auth <==> status == 401,
        r.read_body <==> method == Some("tools/list"@) && content_type is Some && text::occurs(
            content_type->0,
            "application/json"@,
        ),
        status == 401 ==> after.upstreams@.contains_key(name)
            && after.upstreams@[name].auth.headers(now) is None,
        status == 401 ==> after.upstreams@[name].auth.is_evicted(before.upstreams@[name].auth),
        status != 401 ==> after == before,
        other != name ==> (after.upstreams@.contains_key(other)
            <==> before.upstreams@.contains_key(other)),
        other != name && before.upstreams@.contains_key(other) ==> after.upstreams@[other]
            == before.upstreams@[other],
        after.tool_cache == before.tool_cache,
        after.profile_store == before.profile_store,
{
}

/// What comes for the authentication of one upstream changes nothing of another, and nothing at all
/// where there is no such upstream.
pub proof fn law_supply_reaches_its_upstream(
    before: AppState,
    name: Seq<char>,
    run: HeaderRun,
    event: AuthEvent,
    now: u64,
    after: AppState,
    run_after: HeaderRun,
    r: Option<TokenAction>,
    other: Seq<char>,
)
    requires
        before.supplies(name, run, event, now, after, run_after, r),
    ensures
        before.upstreams@.contains_key(name) ==> before.upstreams@[name].auth.supplied(
            run,
            event,
            now,
            after.upstreams@[name].auth,
            run_after,
            r,
        ),
        !before.upstreams@.contains_key(name) ==> run_after == run && r is None,
        other != name || !before.upstreams@.contains_key(name) ==> (
        after.upstreams@.contains_key(other) <==> before.upstreams@.contains_key(other)),
        other != name && before.upstreams@.contains_key(other) ==> after.upstreams@[other]
            == before.upstreams@[other],
        after.tool_cache == before.tool_cache,
        after.profile_store == before.profile_store,
{
}

/// Headers are collected for an upstream exactly where there is one, from its own authentication.
pub proof fn law_walk_of_its_upstream(
    state: AppState,
    name: Seq<char>,
    run: HeaderRun,
    now: u64,
    run_after: HeaderRun,
    r: Option<AuthNeed>,
)
    requires
        state.walks(name, run, now, run_after, r),
    ensures
        r is Some <==> state.upstreams@.contains_key(name),
        r matches Some(need) ==> state.upstreams@[name].auth.collects(run, now, run_after, need),
        r is None ==> run_after == run,
{
}

/// A request whose body could not be read is answered with 400 and the reason.
pub proof fn law_unreadable_body_is_answered(
    upstream: &str,
    reason: String,
    remaining: &str,
    profile: Option<&Profile>,
    r: ProxyPlan,
)
    requires
        call_ensures(proxy_with_filter, (upstream, Err::<&[u8], String>(reason), remaining, profile), r),
    ensures
        r matches ProxyPlan::Answer(reply) && reply.status == 400 && reply.body is Text
            && reply.body->Text_0@ == "failed to read body: "@ + reason@,
{
}

/// Through a profile a body that calls a tool outside its list is answered with the refusal, and
/// any other request goes to what the rest of its path names.
pub proof fn law_profile_limits_requests(
    upstream: &str,
    body: &[u8],
    remaining: &str,
    profile: &Profile,
    tool: Seq<char>,
    r: ProxyPlan,
)
    requires
        call_ensures(
            proxy_with_filter,
            (upstream, Ok::<&[u8], String>(body), remaining, Some(profile)),
            r,
        ),
        json::json_parsed(body@) is Some,
        tools::is_call_of(json::json_parsed(body@)->0, tool),
    ensures
        r is Answer <==> !(profile.allowed_tools@.contains_key(upstream@)
            && profile.allowed_tools@[upstream@].contains(tool)),
        r matches ProxyPlan::Answer(reply) ==> reply.carries(
            200,
            tools::refusal(json::json_parsed(body@)->0, tool, profile.name@),
        ),
        r matches ProxyPlan::Forward { target, .. } ==> target.deep_view()
            == http_upstream::target_of(http_upstream::uri_parts(remaining@)),
{
    let view = profile.deep_view();
    assert(view.allowed_tools == profile.allowed_tools@ && view.name == profile.name@);
    law_disallowed_call_is_answered(
        json::json_parsed(body@),
        tool,
        upstream@,
        Some(view),
        http_upstream::target_of(http_upstream::uri_parts(remaining@)),
        r,
    );
}

/// Without a profile every request whose body could be read is forwarded.
pub proof fn law_no_profile_no_limit(upstream: &str, body: &[u8], remaining: &str, r: ProxyPlan)
    requires
        call_ensures(
            proxy_with_filter,
            (upstream, Ok::<&[u8], String>(body), remaining, None::<&Profile>),
            r,
        ),
    ensures
        r matches ProxyPlan::Forward { target, .. } && target.deep_view()
            == http_upstream::target_of(http_upstream::uri_parts(remaining@)),
{
}

/// An upstream is reached by the transport that it is configured with, and by no other.
pub proof fn law_transport(upstream: UpstreamState, r: Result<Transport<'_>, TransportError>)
    requires
        call_ensures(UpstreamState::do_proxy, (&upstream,), r),
    ensures
        r is Ok <==> (upstream.transport is Http && upstream.http is Some
            || upstream.transport is Stdio && upstream.stdio is Some),
        r matches Ok(Transport::Http(h)) ==> upstream.transport is Http && upstream.http == Some(*h),
        r matches Ok(Transport::Stdio(s)) ==> upstream.transport is Stdio && upstream.stdio == Some(
            *s,
        ),
        r matches Err(e) ==> (upstream.transport is Http ==> e.words()
            == "HTTP upstream not configured"@) && (upstream.transport is Stdio ==> e.words()
            == "stdio upstream not configured"@),
{
}

/// Tools are fetched exactly of an upstream that there is; any other is answered with 404 and its
/// name.
pub proof fn law_refresh_of_known_upstream(state: AppState, name: &str, r: Result<(), Reply>)
    requires
        call_ensures(AppState::refresh_upstream_tools, (&state, name), r),
    ensures
        r is Ok <==> state.upstreams@.contains_key(name@),
        r matches Err(reply) ==> reply.status == 404 && reply.body is Text && reply.body->Text_0@
            == "upstream '"@ + name@ + "' not found"@,
{
}

/// The names of all upstreams are listed, and no others; and each upstream is kept under its name.
pub proof fn law_listed_upstreams(
    upstreams: Vec<UpstreamState>,
    cache: ToolCache,
    profiles: ProfileStore,
    state: AppState,
    names: Vec<String>,
    i: int,
)
    requires
        call_ensures(AppState::new, (upstreams, cache, profiles), state),
        call_ensures(AppState::list_upstreams, (&state,), names),
        0 <= i < upstreams@.len(),
        forall|j: int|
            i < j < upstreams@.len() ==> (#[trigger] upstreams@[j]).name@ != upstreams@[i].name@,
    ensures
        state.upstreams@.contains_key(upstreams@[i].name@),
        state.upstreams@[upstreams@[i].name@] == upstreams@[i],
        names.deep_view().contains(upstreams@[i].name@),
        names@.len() == state.upstreams@.dom().len(),
        state.tool_cache == cache,
        state.profile_store == profiles,
{
    law_last_upstream_stands(upstreams@, i);
    assert(state.upstreams@.contains_key(upstreams@[i].name@));
}

/// What the proxy could not do is told with 502 and the reason.
pub proof fn law_proxy_failure_is_told(reason: &str, failed: Reply, unfetched: Reply)
    requires
        call_ensures(proxy_failed, (reason,), failed),
        call_ensures(fetch_failed, (reason,), unfetched),
    ensures
        failed.status == 502 && failed.body is Text && failed.body->Text_0@ == "proxy error: "@
            + reason@,
        unfetched.status == 502 && unfetched.body is Text && unfetched.body->Text_0@
            == "failed to fetch tools: "@ + reason@,
{
}

/// The answer that lists the cached tools carries the tools of every upstream under its name.
pub proof fn law_cached_tools_are_listed(state: AppState, r: Reply, name: Seq<char>)
    requires
        call_ensures(AppState::list_cached_tools, (&state,), r),
    ensures
        r.status == 200 && r.body is Json,
        r.body->Json_0@ == json::json_text(json::list_object(state.tool_cache@)),
        json::list_object(state.tool_cache@).field(name) == if state.tool_cache@.contains_key(name) {
            Some(JsonTree::Array(state.tool_cache@[name]))
        } else {
            None
        },
{
}

} // verus!
