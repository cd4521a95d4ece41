//! The tools that each upstream has last been seen to offer.
use vstd::prelude::*;
use vstd::string::*;
use crate::json;
use crate::json::{Json, JsonTree};
use crate::name_map;
use crate::name_map::NameMap;

verus! {

/// Caches the list of tools exposed by each upstream MCP server.
pub struct ToolCache {
    cache: NameMap<Vec<Json>>,
}

/// What becomes of the cached tools `before` when tools of `upstream` were fetched, or were not.
pub open spec fn refreshed(
    before: Map<Seq<char>, Seq<JsonTree>>,
    upstream: Seq<char>,
    fetched: Result<Vec<Json>, String>,
    after: Map<Seq<char>, Seq<JsonTree>>,
    r: Result<(), String>,
) -> bool {
    match fetched {
        Ok(tools) => r is Ok && after == before.insert(upstream, tools.deep_view()),
        Err(reason) => r == Err::<(), String>(reason) && after == before,
    }
}

impl ToolCache {
    /// The cached tools, by upstream.
    pub closed spec fn view(self) -> Map<Seq<char>, Seq<JsonTree>> {
        self.cache@
    }

    /// A cache that holds nothing.
    pub fn new() -> (r: ToolCache)
        ensures
            r@ == Map::<Seq<char>, Seq<JsonTree>>::empty(),
    {
        ToolCache { cache: NameMap::new() }
    }

    /// Keeps `tools` for `upstream_name`, in place of what was kept for it.
    pub fn set_tools(&mut self, upstream_name: &str, tools: Vec<Json>)
        ensures
            final(self)@ == old(self)@.insert(upstream_name@, tools.deep_view()),
    {
        self.cache.insert(upstream_name.to_owned(), tools);
    }

    /// Refresh the tool cache for a single upstream with what came of a tools/list request: the
    /// tools, or the reason why there are none.
    pub fn refresh_upstream(&mut self, upstream_name: &str, fetched: Result<Vec<Json>, String>) -> (r:
        Result<(), String>)
        ensures
            refreshed(old(self)@, upstream_name@, fetched, final(self)@, r),
    {
        match fetched {
            Ok(tools) => {
                self.set_tools(upstream_name, tools);
                Ok(())
            },
            Err(reason) => Err(reason),
        }
    }

    /// The tools kept for `upstream_name`.
    pub fn get_tools(&self, upstream_name: &str) -> (r: Option<Vec<Json>>)
        ensures
            match r {
                Some(tools) => self@.contains_key(upstream_name@) && self@[upstream_name@]
                    == tools.deep_view(),
                None => !self@.contains_key(upstream_name@),
            },
    {
        match self.cache.get(upstream_name) {
            Some(tools) => Some(json::duplicate_values(tools)),
            None => None,
        }
    }

    /// The tools of every upstream that tools are kept for.
    pub fn get_all(&self) -> (r: NameMap<Vec<Json>>)
        ensures
            r@ == self@,
    {
        let mut out: NameMap<Vec<Json>> = NameMap::new();
        let mut i: usize = 0;
        let n: usize = self.cache.len();
        let ghost entries = self.cache.entries();
        assert(entries.take(0) =~= Seq::empty());
        while i < n
            invariant
                i <= n,
                n == entries.len(),
                entries == self.cache.entries(),
                out@ == name_map::entries_map(entries.take(i as int)),
            decreases n - i,
        {
            let entry = self.cache.entry(i);
            out.insert(entry.0.clone(), json::duplicate_values(entry.1));
            proof {
                assert(entries.take(i + 1).drop_last() =~= entries.take(i as int));
            }
            i += 1;
        }
        assert(entries.take(n as int) =~= entries);
        out
    }
}

/// Tools that were fetched are found for their upstream, all of them, and those of the other
/// upstreams are found as before; where none were fetched, everything is found as before.
pub proof fn law_fetched_tools_are_found(
    before: Map<Seq<char>, Seq<JsonTree>>,
    upstream: Seq<char>,
    fetched: Result<Vec<Json>, String>,
    after: ToolCache,
    r: Result<(), String>,
    name: &str,
    found: Option<Vec<Json>>,
)
    requires
        refreshed(before, upstream, fetched, after@, r),
        call_ensures(ToolCache::get_tools, (&after, name), found),
    ensures
        r is Ok <==> fetched is Ok,
        fetched matches Err(reason) ==> r == Err::<(), String>(reason),
        fetched is Ok && name@ == upstream ==> found is Some && found->0.deep_view()
            == fetched->Ok_0.deep_view(),
        fetched is Err || name@ != upstream ==> (found is Some <==> before.contains_key(name@)),
        fetched is Err || name@ != upstream ==> (found is Some ==> found->0.deep_view()
            == before[name@]),
{
}

/// All cached tools are handed out as they are kept.
pub proof fn law_all_tools_are_handed_out(
    cache: ToolCache,
    all: NameMap<Vec<Json>>,
    name: &str,
    found: Option<Vec<Json>>,
)
    requires
        call_ensures(ToolCache::get_all, (&cache,), all),
        call_ensures(ToolCache::get_tools, (&cache, name), found),
    ensures
        all@.contains_key(name@) <==> found is Some,
        found is Some ==> all@[name@] == found->0.deep_view(),
{
}

} // verus!
