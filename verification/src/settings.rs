//! Profiles, which limit the tools that a client may use, and the MCP servers that were added
//! while the proxy was running.
use vstd::prelude::*;
use vstd::string::*;
use crate::config::ExtraHeader;
use crate::name_map;
use crate::name_map::NameMap;

verus! {

/// A profile that limits tool access under a URL prefix.
#[derive(Debug)]
pub struct Profile {
    pub name: String,
    /// Upstream name to list of allowed tool names.
    /// Upstreams not listed here have no tools accessible through this profile.
    pub allowed_tools: NameMap<Vec<String>>,
}

/// What a profile says.
#[verifier::ext_equal]
pub struct ProfileView {
    pub name: Seq<char>,
    pub allowed_tools: Map<Seq<char>, Seq<Seq<char>>>,
}

impl DeepView for Profile {
    type V = ProfileView;

    open spec fn deep_view(&self) -> ProfileView {
        ProfileView { name: self.name@, allowed_tools: self.allowed_tools@ }
    }
}

impl ProfileView {
    /// The tools of `upstream` that may be used through this profile.
    pub open spec fn allowed(self, upstream: Seq<char>) -> Seq<Seq<char>> {
        if self.allowed_tools.contains_key(upstream) {
            self.allowed_tools[upstream]
        } else {
            Seq::empty()
        }
    }
}

/// A list of texts again.
pub fn duplicate_texts(texts: &Vec<String>) -> (r: Vec<String>)
    ensures
        r.deep_view() == texts.deep_view(),
{
    let mut out: Vec<String> = Vec::new();
    let mut i: usize = 0;
    while i < texts.len()
        invariant
            i <= texts@.len(),
            out@.len() == i,
            forall|j: int| 0 <= j < i ==> (#[trigger] out@[j])@ == texts@[j]@,
        decreases texts@.len() - i,
    {
        out.push(texts[i].clone());
        i += 1;
    }
    assert(out.deep_view() =~= texts.deep_view());
    out
}

impl Profile {
    /// The tools of `upstream` that may be used through this profile.
    pub fn allowed(&self, upstream: &str) -> (r: Vec<String>)
        ensures
            r.deep_view() == self.deep_view().allowed(upstream@),
    {
        match self.allowed_tools.get(upstream) {
            Some(tools) => duplicate_texts(tools),
            None => {
                let none: Vec<String> = Vec::new();
                assert(none.deep_view() =~= Seq::empty());
                none
            },
        }
    }

    /// The same profile again.
    pub fn duplicate(&self) -> (r: Profile)
        ensures
            r.deep_view() == self.deep_view(),
    {
        let mut tools: NameMap<Vec<String>> = NameMap::new();
        let mut i: usize = 0;
        let n: usize = self.allowed_tools.len();
        let ghost entries = self.allowed_tools.entries();
        assert(entries.take(0) =~= Seq::empty());
        while i < n
            invariant
                i <= n,
                n == entries.len(),
                entries == self.allowed_tools.entries(),
                tools@ == name_map::entries_map(entries.take(i as int)),
            decreases n - i,
        {
            let entry = self.allowed_tools.entry(i);
            tools.insert(entry.0.clone(), duplicate_texts(entry.1));
            proof {
                assert(entries.take(i + 1).drop_last() =~= entries.take(i as int));
            }
            i += 1;
        }
        assert(entries.take(n as int) =~= entries);
        Profile { name: self.name.clone(), allowed_tools: tools }
    }
}

/// The profiles, by name, and the file that they are kept in.
#[derive(Debug)]
pub struct ProfileStore {
    profiles: NameMap<Profile>,
    path: String,
}

/// The entry that a list item makes, under the name that the item has.
pub open spec fn named_profiles(items: Seq<ProfileView>) -> Seq<(Seq<char>, ProfileView)> {
    items.map_values(|p: ProfileView| (p.name, p))
}

/// What becomes of the profiles `before` when `profile` is kept.
pub open spec fn profile_kept(
    before: Map<Seq<char>, ProfileView>,
    profile: ProfileView,
    after: Map<Seq<char>, ProfileView>,
) -> bool {
    after == before.insert(profile.name, profile)
}

impl ProfileStore {
    /// The profiles, by name.
    pub closed spec fn view(self) -> Map<Seq<char>, ProfileView> {
        self.profiles@
    }

    /// The file that the profiles are kept in.
    pub closed spec fn path(self) -> Seq<char> {
        self.path@
    }

    /// The store that holds the profiles `items`, as they were read from the file `path`. Of the
    /// profiles that share a name, the last one is kept.
    pub fn new(path: String, items: Vec<Profile>) -> (r: ProfileStore)
        ensures
            r@ == name_map::entries_map(named_profiles(items.deep_view())),
            r.path() == path@,
    {
        let mut profiles: NameMap<Profile> = NameMap::new();
        let mut i: usize = 0;
        let ghost entries = named_profiles(items.deep_view());
        assert(entries.take(0) =~= Seq::empty());
        while i < items.len()
            invariant
                i <= items@.len(),
                entries == named_profiles(items.deep_view()),
                profiles@ == name_map::entries_map(entries.take(i as int)),
            decreases items@.len() - i,
        {
            profiles.insert(items[i].name.clone(), items[i].duplicate());
            proof {
                assert(entries.take(i + 1).drop_last() =~= entries.take(i as int));
                assert(entries.take(i + 1).last() == (
                    items@[i as int].name@,
                    items@[i as int].deep_view(),
                ));
            }
            i += 1;
        }
        assert(entries.take(i as int) =~= entries);
        ProfileStore { profiles, path }
    }

    /// The file that the profiles are kept in.
    pub fn file(&self) -> (r: &String)
        ensures
            r@ == self.path(),
    {
        &self.path
    }

    /// All profiles, each once.
    pub fn list(&self) -> (r: Vec<Profile>)
        ensures
            r@.len() == self@.dom().len(),
            forall|i: int|
                0 <= i < r@.len() ==> name_map::holds(self@, #[trigger] r.deep_view()[i]),
            forall|k: Seq<char>| #[trigger]
                self@.contains_key(k) ==> r.deep_view().contains(self@[k]),
    {
        let mut out: Vec<Profile> = Vec::new();
        let mut i: usize = 0;
        let n: usize = self.profiles.len();
        let ghost entries = self.profiles.entries();
        while i < n
            invariant
                i <= n,
                n == entries.len(),
                entries == self.profiles.entries(),
                out@.len() == i,
                forall|j: int|
                    0 <= j < i ==> (#[trigger] out@[j]).deep_view() == entries[j].1
                        && self@.contains_key(entries[j].0) && self@[entries[j].0] == entries[j].1,
            decreases n - i,
        {
            let entry = self.profiles.entry(i);
            out.push(entry.1.duplicate());
            i += 1;
        }
        proof {
            name_map::lemma_entries_map(entries);
            assert forall|i: int| 0 <= i < out@.len() implies name_map::holds(
                self@,
                #[trigger] out.deep_view()[i],
            ) by {
                assert(out.deep_view()[i] == out@[i].deep_view());
                assert(self@.contains_key(entries[i].0));
            }
            assert forall|k: Seq<char>| #[trigger] self@.contains_key(k) implies out.deep_view().contains(
                self@[k],
            ) by {
                let i = choose|i: int| 0 <= i < entries.len() && (#[trigger] entries[i]).0 == k;
                assert(out.deep_view()[i] == out@[i].deep_view());
            }
        }
        out
    }

    /// The profile called `name`.
    pub fn get(&self, name: &str) -> (r: Option<Profile>)
        ensures
            match r {
                Some(p) => self@.contains_key(name@) && self@[name@] == p.deep_view(),
                None => !self@.contains_key(name@),
            },
    {
        match self.profiles.get(name) {
            Some(p) => Some(p.duplicate()),
            None => None,
        }
    }

    /// Keeps `profile` under its name, in place of the profile that had the name.
    pub fn upsert(&mut self, profile: Profile)
        ensures
            profile_kept(old(self)@, profile.deep_view(), final(self)@),
            final(self).path() == old(self).path(),
    {
        self.profiles.insert(profile.name.clone(), profile);
    }

    /// Forgets the profile called `name`, and says whether there was one.
    pub fn delete(&mut self, name: &str) -> (r: bool)
        ensures
            forgotten(old(self)@, name@, final(self)@, r),
            final(self).path() == old(self).path(),
    {
        self.profiles.remove(name)
    }
}

/// An MCP server that was added while the proxy was running.
#[derive(Debug)]
pub struct McpServerConfig {
    pub name: String,
    pub url: String,
    pub auth_header: String,
    pub auth_prefix: Option<String>,
    pub credential_ref: String,
    /// Additional headers to inject, each resolved via the credential provider
    pub extra_headers: Vec<ExtraHeader>,
}

/// What the settings of an additional header say.
pub struct ExtraHeaderView {
    pub header: Seq<char>,
    pub prefix: Option<Seq<char>>,
    pub credential_ref: Seq<char>,
}

impl DeepView for ExtraHeader {
    type V = ExtraHeaderView;

    open spec fn deep_view(&self) -> ExtraHeaderView {
        ExtraHeaderView {
            header: self.header@,
            prefix: self.prefix.deep_view(),
            credential_ref: self.credential_ref@,
        }
    }
}

/// What the settings of an added MCP server say.
pub struct McpServerView {
    pub name: Seq<char>,
    pub url: Seq<char>,
    pub auth_header: Seq<char>,
    pub auth_prefix: Option<Seq<char>>,
    pub credential_ref: Seq<char>,
    pub extra_headers: Seq<ExtraHeaderView>,
}

impl DeepView for McpServerConfig {
    type V = McpServerView;

    open spec fn deep_view(&self) -> McpServerView {
        McpServerView {
            name: self.name@,
            url: self.url@,
            auth_header: self.auth_header@,
            auth_prefix: self.auth_prefix.deep_view(),
            credential_ref: self.credential_ref@,
            extra_headers: self.extra_headers.deep_view(),
        }
    }
}

/// An optional text again.
pub fn duplicate_option(text: &Option<String>) -> (r: Option<String>)
    ensures
        r == *text,
{
    match text {
        Some(t) => Some(t.clone()),
        None => None,
    }
}

impl ExtraHeader {
    /// The same settings again.
    pub fn duplicate(&self) -> (r: ExtraHeader)
        ensures
            r == *self,
    {
        ExtraHeader {
            header: self.header.clone(),
            prefix: duplicate_option(&self.prefix),
            credential_ref: self.credential_ref.clone(),
        }
    }
}

impl McpServerConfig {
    /// The same settings again.
    pub fn duplicate(&self) -> (r: McpServerConfig)
        ensures
            r.deep_view() == self.deep_view(),
    {
        let mut extra: Vec<ExtraHeader> = Vec::new();
        let mut i: usize = 0;
        while i < self.extra_headers.len()
            invariant
                i <= self.extra_headers@.len(),
                extra@.len() == i,
                forall|j: int| 0 <= j < i ==> #[trigger] extra@[j] == self.extra_headers@[j],
            decreases self.extra_headers@.len() - i,
        {
            extra.push(self.extra_headers[i].duplicate());
            i += 1;
        }
        assert(extra.deep_view() =~= self.extra_headers.deep_view());
        McpServerConfig {
            name: self.name.clone(),
            url: self.url.clone(),
            auth_header: self.auth_header.clone(),
            auth_prefix: duplicate_option(&self.auth_prefix),
            credential_ref: self.credential_ref.clone(),
            extra_headers: extra,
        }
    }
}

/// The servers, by name, and the file that they are kept in.
#[derive(Debug)]
pub struct McpServerStore {
    servers: NameMap<McpServerConfig>,
    path: String,
}

/// The entry that a list item makes, under the name that the item has.
pub open spec fn named_servers(items: Seq<McpServerView>) -> Seq<(Seq<char>, McpServerView)> {
    items.map_values(|s: McpServerView| (s.name, s))
}

/// What becomes of the servers `before` when `server` is kept.
pub open spec fn server_kept(
    before: Map<Seq<char>, McpServerView>,
    server: McpServerView,
    after: Map<Seq<char>, McpServerView>,
) -> bool {
    after == before.insert(server.name, server)
}

/// What becomes of the settings `before` when those called `name` are forgotten; `r` says whether
/// there were any.
pub open spec fn forgotten<A>(
    before: Map<Seq<char>, A>,
    name: Seq<char>,
    after: Map<Seq<char>, A>,
    r: bool,
) -> bool {
    &&& r == before.contains_key(name)
    &&& after == before.remove(name)
}

impl McpServerStore {
    /// The servers, by name.
    pub closed spec fn view(self) -> Map<Seq<char>, McpServerView> {
        self.servers@
    }

    /// The file that the servers are kept in.
    pub closed spec fn path(self) -> Seq<char> {
        self.path@
    }

    /// The store that holds the servers `items`, as they were read from the file `path`. Of the
    /// servers that share a name, the last one is kept.
    pub fn new(path: String, items: Vec<McpServerConfig>) -> (r: McpServerStore)
        ensures
            r@ == name_map::entries_map(named_servers(items.deep_view())),
            r.path() == path@,
    {
        let mut servers: NameMap<McpServerConfig> = NameMap::new();
        let mut i: usize = 0;
        let ghost entries = named_servers(items.deep_view());
        assert(entries.take(0) =~= Seq::empty());
        while i < items.len()
            invariant
                i <= items@.len(),
                entries == named_servers(items.deep_view()),
                servers@ == name_map::entries_map(entries.take(i as int)),
            decreases items@.len() - i,
        {
            servers.insert(items[i].name.clone(), items[i].duplicate());
            proof {
                assert(entries.take(i + 1).drop_last() =~= entries.take(i as int));
                assert(entries.take(i + 1).last() == (
                    items@[i as int].name@,
                    items@[i as int].deep_view(),
                ));
            }
            i += 1;
        }
        assert(entries.take(i as int) =~= entries);
        McpServerStore { servers, path }
    }

    /// The file that the servers are kept in.
    pub fn file(&self) -> (r: &String)
        ensures
            r@ == self.path(),
    {
        &self.path
    }

    /// All servers, each once.
    pub fn list(&self) -> (r: Vec<McpServerConfig>)
        ensures
            r@.len() == self@.dom().len(),
            forall|i: int|
                0 <= i < r@.len() ==> name_map::holds(self@, #[trigger] r.deep_view()[i]),
            forall|k: Seq<char>| #[trigger]
                self@.contains_key(k) ==> r.deep_view().contains(self@[k]),
    {
        let mut out: Vec<McpServerConfig> = Vec::new();
        let mut i: usize = 0;
        let n: usize = self.servers.len();
        let ghost entries = self.servers.entries();
        while i < n
            invariant
                i <= n,
                n == entries.len(),
                entries == self.servers.entries(),
                out@.len() == i,
                forall|j: int|
                    0 <= j < i ==> (#[trigger] out@[j]).deep_view() == entries[j].1
                        && self@.contains_key(entries[j].0) && self@[entries[j].0] == entries[j].1,
            decreases n - i,
        {
            let entry = self.servers.entry(i);
            out.push(entry.1.duplicate());
            i += 1;
        }
        proof {
            name_map::lemma_entries_map(entries);
            assert forall|i: int| 0 <= i < out@.len() implies name_map::holds(
                self@,
                #[trigger] out.deep_view()[i],
            ) by {
                assert(out.deep_view()[i] == out@[i].deep_view());
                assert(self@.contains_key(entries[i].0));
            }
            assert forall|k: Seq<char>| #[trigger] self@.contains_key(k) implies out.deep_view().contains(
                self@[k],
            ) by {
                let i = choose|i: int| 0 <= i < entries.len() && (#[trigger] entries[i]).0 == k;
                assert(out.deep_view()[i] == out@[i].deep_view());
            }
        }
        out
    }

    /// The server called `name`.
    pub fn get(&self, name: &str) -> (r: Option<McpServerConfig>)
        ensures
            match r {
                Some(p) => self@.contains_key(name@) && self@[name@] == p.deep_view(),
                None => !self@.contains_key(name@),
            },
    {
        match self.servers.get(name) {
            Some(p) => Some(p.duplicate()),
            None => None,
        }
    }

    /// Keeps `server` under its name, in place of the server that had the name.
    pub fn upsert(&mut self, server: McpServerConfig)
        ensures
            server_kept(old(self)@, server.deep_view(), final(self)@),
            final(self).path() == old(self).path(),
    {
        self.servers.insert(server.name.clone(), server);
    }

    /// Forgets the server called `name`, and says whether there was one.
    pub fn delete(&mut self, name: &str) -> (r: bool)
        ensures
            forgotten(old(self)@, name@, final(self)@, r),
            final(self).path() == old(self).path(),
    {
        self.servers.remove(name)
    }
}

/// Every profile stands under its own name.
pub open spec fn profiles_by_name(profiles: Map<Seq<char>, ProfileView>) -> bool {
    forall|k: Seq<char>| #[trigger] profiles.contains_key(k) ==> profiles[k].name == k
}

/// Every server stands under its own name.
pub open spec fn servers_by_name(servers: Map<Seq<char>, McpServerView>) -> bool {
    forall|k: Seq<char>| #[trigger] servers.contains_key(k) ==> servers[k].name == k
}

/// Every profile stands under its own name: of the profiles that are read in, and whatever profile
/// is then kept or forgotten.
pub proof fn law_profiles_by_name(
    items: Seq<ProfileView>,
    before: Map<Seq<char>, ProfileView>,
    profile: ProfileView,
    name: Seq<char>,
)
    ensures
        profiles_by_name(name_map::entries_map(named_profiles(items))),
        profiles_by_name(before) ==> profiles_by_name(before.insert(profile.name, profile)),
        profiles_by_name(before) ==> profiles_by_name(before.remove(name)),
{
    let key = |p: ProfileView| p.name;
    name_map::lemma_keyed(items, key);
    assert(name_map::keyed(items, key) =~= named_profiles(items));
}

/// Every server stands under its own name: of the servers that are read in, and whatever server is
/// then kept or forgotten.
pub proof fn law_servers_by_name(
    items: Seq<McpServerView>,
    before: Map<Seq<char>, McpServerView>,
    server: McpServerView,
    name: Seq<char>,
)
    ensures
        servers_by_name(name_map::entries_map(named_servers(items))),
        servers_by_name(before) ==> servers_by_name(before.insert(server.name, server)),
        servers_by_name(before) ==> servers_by_name(before.remove(name)),
{
    let key = |s: McpServerView| s.name;
    name_map::lemma_keyed(items, key);
    assert(name_map::keyed(items, key) =~= named_servers(items));
}

/// What is persisted is read back: a list of all profiles makes the same profiles again.
pub proof fn law_persisted_profiles_return(
    profiles: Map<Seq<char>, ProfileView>,
    items: Seq<ProfileView>,
)
    requires
        profiles_by_name(profiles),
        forall|i: int| 0 <= i < items.len() ==> name_map::holds(profiles, #[trigger] items[i]),
        forall|k: Seq<char>| #[trigger] profiles.contains_key(k) ==> items.contains(profiles[k]),
    ensures
        name_map::entries_map(named_profiles(items)) == profiles,
{
    let key = |p: ProfileView| p.name;
    name_map::lemma_keyed(items, key);
    assert(name_map::keyed(items, key) =~= named_profiles(items));
    name_map::lemma_keyed_returns(profiles, items, key);
}

/// What is persisted is read back: a list of all servers makes the same servers again.
pub proof fn law_persisted_servers_return(
    servers: Map<Seq<char>, McpServerView>,
    items: Seq<McpServerView>,
)
    requires
        servers_by_name(servers),
        forall|i: int| 0 <= i < items.len() ==> name_map::holds(servers, #[trigger] items[i]),
        forall|k: Seq<char>| #[trigger] servers.contains_key(k) ==> items.contains(servers[k]),
    ensures
        name_map::entries_map(named_servers(items)) == servers,
{
    let key = |s: McpServerView| s.name;
    name_map::lemma_keyed(items, key);
    assert(name_map::keyed(items, key) =~= named_servers(items));
    name_map::lemma_keyed_returns(servers, items, key);
}

/// A profile says its name and, for each upstream, the tools that it lists for it; nothing is
/// allowed on an upstream that it does not list.
pub proof fn law_profile_says(profile: Profile, upstream: Seq<char>)
    ensures
        profile.deep_view().name == profile.name@,
        profile.allowed_tools@.contains_key(upstream) ==> profile.deep_view().allowed(upstream)
            == profile.allowed_tools@[upstream],
        !profile.allowed_tools@.contains_key(upstream) ==> profile.deep_view().allowed(
            upstream,
        ).len() == 0,
{
}

/// The settings of an added server say each of their fields.
pub proof fn law_server_says(server: McpServerConfig, i: int)
    ensures
        server.deep_view().name == server.name@,
        server.deep_view().url == server.url@,
        server.deep_view().auth_header == server.auth_header@,
        server.deep_view().credential_ref == server.credential_ref@,
        server.auth_prefix is None ==> server.deep_view().auth_prefix is None,
        server.auth_prefix matches Some(p) ==> server.deep_view().auth_prefix == Some(p@),
        server.deep_view().extra_headers.len() == server.extra_headers@.len(),
        0 <= i < server.extra_headers@.len() ==> {
            let said = server.deep_view().extra_headers[i];
            let given = server.extra_headers@[i];
            &&& said.header == given.header@
            &&& said.credential_ref == given.credential_ref@
            &&& given.prefix is None ==> said.prefix is None
            &&& given.prefix matches Some(p) ==> said.prefix == Some(p@)
        },
{
}

/// The profiles that a list makes are those of the list, of each name the last one.
pub proof fn law_last_profile_stands(items: Seq<ProfileView>, i: int)
    requires
        0 <= i < items.len(),
        forall|j: int| i < j < items.len() ==> (#[trigger] items[j]).name != items[i].name,
    ensures
        name_map::entries_map(named_profiles(items)).contains_key(items[i].name),
        name_map::entries_map(named_profiles(items))[items[i].name] == items[i],
    decreases items.len(),
{
    let entries = named_profiles(items);
    let last = items.last();
    let before = items.drop_last();
    assert(entries =~= named_profiles(before).push((last.name, last)));
    name_map::law_last_entry_stands(named_profiles(before), last.name, last, items[i].name);
    if i < items.len() - 1 {
        assert(items[items.len() - 1].name != items[i].name);
        assert forall|j: int| i < j < before.len() implies (#[trigger] before[j]).name
            != before[i].name by {
            assert(before[j] == items[j]);
        }
        law_last_profile_stands(before, i);
    }
}

/// The servers that a list makes are those of the list, of each name the last one.
pub proof fn law_last_server_stands(items: Seq<McpServerView>, i: int)
    requires
        0 <= i < items.len(),
        forall|j: int| i < j < items.len() ==> (#[trigger] items[j]).name != items[i].name,
    ensures
        name_map::entries_map(named_servers(items)).contains_key(items[i].name),
        name_map::entries_map(named_servers(items))[items[i].name] == items[i],
    decreases items.len(),
{
    let entries = named_servers(items);
    let last = items.last();
    let before = items.drop_last();
    assert(entries =~= named_servers(before).push((last.name, last)));
    name_map::law_last_entry_stands(named_servers(before), last.name, last, items[i].name);
    if i < items.len() - 1 {
        assert(items[items.len() - 1].name != items[i].name);
        assert forall|j: int| i < j < before.len() implies (#[trigger] before[j]).name
            != before[i].name by {
            assert(before[j] == items[j]);
        }
        law_last_server_stands(before, i);
    }
}

/// A profile that was kept is got under its name as it is, and the others as before.
pub proof fn law_kept_profile_is_got(
    before: Map<Seq<char>, ProfileView>,
    profile: ProfileView,
    after: ProfileStore,
    name: &str,
    found: Option<Profile>,
)
    requires
        profile_kept(before, profile, after@),
        call_ensures(ProfileStore::get, (&after, name), found),
    ensures
        name@ == profile.name ==> found is Some && found->0.deep_view() == profile,
        name@ != profile.name ==> (found is Some <==> before.contains_key(name@)),
        name@ != profile.name && found is Some ==> found->0.deep_view() == before[name@],
{
}

/// A server that was kept is got under its name as it is, and the others as before.
pub proof fn law_kept_server_is_got(
    before: Map<Seq<char>, McpServerView>,
    server: McpServerView,
    after: McpServerStore,
    name: &str,
    found: Option<McpServerConfig>,
)
    requires
        server_kept(before, server, after@),
        call_ensures(McpServerStore::get, (&after, name), found),
    ensures
        name@ == server.name ==> found is Some && found->0.deep_view() == server,
        name@ != server.name ==> (found is Some <==> before.contains_key(name@)),
        name@ != server.name && found is Some ==> found->0.deep_view() == before[name@],
{
}

/// What was forgotten is not got any more, and all else is as before; that something was forgotten
/// is said exactly when there was something.
pub proof fn law_forgotten_is_gone(
    profiles: Map<Seq<char>, ProfileView>,
    servers: Map<Seq<char>, McpServerView>,
    gone: Seq<char>,
    profiles_after: ProfileStore,
    servers_after: McpServerStore,
    had_profile: bool,
    had_server: bool,
    name: &str,
    profile: Option<Profile>,
    server: Option<McpServerConfig>,
)
    requires
        forgotten(profiles, gone, profiles_after@, had_profile),
        forgotten(servers, gone, servers_after@, had_server),
        call_ensures(ProfileStore::get, (&profiles_after, name), profile),
        call_ensures(McpServerStore::get, (&servers_after, name), server),
    ensures
        had_profile <==> profiles.contains_key(gone),
        had_server <==> servers.contains_key(gone),
        name@ == gone ==> profile is None && server is None,
        name@ != gone ==> (profile is Some <==> profiles.contains_key(name@)),
        name@ != gone && profile is Some ==> profile->0.deep_view() == profiles[name@],
        name@ != gone ==> (server is Some <==> servers.contains_key(name@)),
        name@ != gone && server is Some ==> server->0.deep_view() == servers[name@],
{
}

/// A list holds exactly what is got by name, each once.
pub proof fn law_listed_is_what_is_got(
    profiles: ProfileStore,
    servers: McpServerStore,
    profile_list: Vec<Profile>,
    server_list: Vec<McpServerConfig>,
    name: &str,
    profile: Option<Profile>,
    server: Option<McpServerConfig>,
)
    requires
        call_ensures(ProfileStore::list, (&profiles,), profile_list),
        call_ensures(McpServerStore::list, (&servers,), server_list),
        call_ensures(ProfileStore::get, (&profiles, name), profile),
        call_ensures(McpServerStore::get, (&servers, name), server),
    ensures
        profile_list@.len() == profiles@.dom().len(),
        server_list@.len() == servers@.dom().len(),
        profile is Some ==> profile_list.deep_view().contains(profile->0.deep_view()),
        server is Some ==> server_list.deep_view().contains(server->0.deep_view()),
{
    if profiles@.contains_key(name@) {
        assert(profile_list.deep_view().contains(profiles@[name@]));
    }
    if servers@.contains_key(name@) {
        assert(server_list.deep_view().contains(servers@[name@]));
    }
}

/// A store that is read in holds each item under its name, unless a later item has that name, and
/// the file that it was read from.
pub proof fn law_read_in(
    path: String,
    items: Vec<Profile>,
    servers: Vec<McpServerConfig>,
    profile_store: ProfileStore,
    server_store: McpServerStore,
    i: int,
)
    requires
        call_ensures(ProfileStore::new, (path, items), profile_store),
        call_ensures(McpServerStore::new, (path, servers), server_store),
    ensures
        profile_store.path() == path@,
        server_store.path() == path@,
        0 <= i < items@.len() && (forall|j: int|
            i < j < items@.len() ==> (#[trigger] items@[j]).name@ != items@[i].name@)
            ==> profile_store@.contains_key(items@[i].name@) && profile_store@[items@[i].name@]
            == items@[i].deep_view(),
        0 <= i < servers@.len() && (forall|j: int|
            i < j < servers@.len() ==> (#[trigger] servers@[j]).name@ != servers@[i].name@)
            ==> server_store@.contains_key(servers@[i].name@) && server_store@[servers@[i].name@]
            == servers@[i].deep_view(),
{
    if 0 <= i < items@.len() && (forall|j: int|
        i < j < items@.len() ==> (#[trigger] items@[j]).name@ != items@[i].name@) {
        let views = items.deep_view();
        assert forall|j: int| i < j < views.len() implies (#[trigger] views[j]).name
            != views[i].name by {
            assert(items@[j].name@ != items@[i].name@);
        }
        law_last_profile_stands(views, i);
    }
    if 0 <= i < servers@.len() && (forall|j: int|
        i < j < servers@.len() ==> (#[trigger] servers@[j]).name@ != servers@[i].name@) {
        let views = servers.deep_view();
        assert forall|j: int| i < j < views.len() implies (#[trigger] views[j]).name
            != views[i].name by {
            assert(servers@[j].name@ != servers@[i].name@);
        }
        law_last_server_stands(views, i);
    }
}

} // verus!
