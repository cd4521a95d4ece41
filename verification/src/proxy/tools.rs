//! What a profile does to the JSON-RPC traffic: calls of tools that it does not allow are
//! answered with an error, and lists of tools lose what it does not allow.
use vstd::prelude::*;
use vstd::string::*;
use crate::json;
use crate::json::{Json, JsonTree};
use crate::settings::{Profile, ProfileView};
use crate::text;
use crate::tool_cache::ToolCache;

verus! {

/// The largest body that is read for inspection, in bytes.
pub const MAX_BODY_BYTES: usize = 16777216;

/// The method that a JSON-RPC message names.
pub open spec fn method_of(msg: JsonTree) -> Option<Seq<char>> {
    match msg.field("method"@) {
        Some(method) => method.text(),
        None => None,
    }
}

/// The tool that a `tools/call` message calls.
pub open spec fn called_tool(msg: JsonTree) -> Option<Seq<char>> {
    match msg.field("params"@) {
        Some(params) => match params.field("name"@) {
            Some(name) => name.text(),
            None => None,
        },
        None => None,
    }
}

/// The tool for whose sake a message is refused, where only the tools `allowed` may be called.
pub open spec fn refused_tool(msg: JsonTree, allowed: Seq<Seq<char>>) -> Option<Seq<char>> {
    if method_of(msg) == Some("tools/call"@) {
        match called_tool(msg) {
            Some(tool) => if allowed.contains(tool) {
                None
            } else {
                Some(tool)
            },
            None => None,
        }
    } else {
        None
    }
}

/// The words of a refusal.
pub open spec fn refusal_words(tool: Seq<char>, profile: Seq<char>) -> Seq<char> {
    "tool '"@ + tool + "' is not allowed in profile '"@ + profile + "'"@
}

/// The JSON-RPC error that answers a call of a tool that the profile does not allow. It carries
/// the id of the message, or null where that has none.
pub open spec fn refusal(msg: JsonTree, tool: Seq<char>, profile: Seq<char>) -> JsonTree {
    let id = match msg.field("id"@) {
        Some(id) => id,
        None => JsonTree::Null,
    };
    let error = JsonTree::Object(
        json::fields_map(
            seq![
                ("code"@, JsonTree::Number(json::integer_number(-32601))),
                ("message"@, JsonTree::Text(refusal_words(tool, profile))),
            ],
        ),
    );
    JsonTree::Object(
        json::fields_map(
            seq![("jsonrpc"@, JsonTree::Text("2.0"@)), ("id"@, id), ("error"@, error)],
        ),
    )
}

/// What is to be done with a request.
pub enum Inspection {
    /// Answer with this message and do not forward the request.
    Refuse(Json),
    /// Forward the request, whose message names the given method.
    Forward { method: Option<String> },
}

/// What is to be done with a request whose body reads as `msg`.
pub open spec fn inspected(
    msg: Option<JsonTree>,
    upstream: Seq<char>,
    profile: Option<ProfileView>,
    r: Inspection,
) -> bool {
    let refused = match (msg, profile) {
        (Some(m), Some(p)) => refused_tool(m, p.allowed(upstream)),
        _ => None,
    };
    match r {
        Inspection::Refuse(answer) => refused is Some && answer.tree() == refusal(
            msg->0,
            refused->0,
            profile->0.name,
        ),
        Inspection::Forward { method } => refused is None && method.deep_view() == match msg {
            Some(m) => method_of(m),
            None => None,
        },
    }
}

/// Whether `names` holds `name`.
pub fn contains_name(names: &Vec<String>, name: &str) -> (r: bool)
    ensures
        r == names.deep_view().contains(name@),
{
    let mut i: usize = 0;
    while i < names.len()
        invariant
            i <= names@.len(),
            forall|j: int| 0 <= j < i ==> (#[trigger] names@[j])@ != name@,
        decreases names@.len() - i,
    {
        if text::same_text(names[i].as_str(), name) {
            assert(names.deep_view()[i as int] == name@);
            return true;
        }
        i += 1;
    }
    proof {
        if names.deep_view().contains(name@) {
            let j = choose|j: int|
                0 <= j < names.deep_view().len() && names.deep_view()[j] == name@;
            assert(names@[j]@ == name@);
        }
    }
    false
}

/// The method that a JSON-RPC message names.
pub fn message_method(msg: &Json) -> (r: Option<String>)
    ensures
        r.deep_view() == method_of(msg.tree()),
{
    match msg.get("method") {
        Some(method) => match method.as_str() {
            Some(name) => Some(name.to_owned()),
            None => None,
        },
        None => None,
    }
}

/// The tool that a `tools/call` message calls.
pub fn message_tool(msg: &Json) -> (r: Option<String>)
    ensures
        r.deep_view() == called_tool(msg.tree()),
{
    match msg.get("params") {
        Some(params) => match params.get("name") {
            Some(name) => match name.as_str() {
                Some(name) => Some(name.to_owned()),
                None => None,
            },
            None => None,
        },
        None => None,
    }
}

/// The JSON-RPC error that answers a call of a tool that the profile does not allow.
pub fn refusal_message(msg: &Json, tool: &str, profile: &str) -> (r: Json)
    ensures
        r.tree() == refusal(msg.tree(), tool@, profile@),
{
    let words = "tool '".to_owned().concat(tool).concat("' is not allowed in profile '").concat(
        profile,
    ).concat("'");
    let mut error: Vec<(String, Json)> = Vec::new();
    error.push(("code".to_owned(), Json::integer(-32601)));
    error.push(("message".to_owned(), Json::Text(words)));
    proof {
        json::lemma_field_trees(error@);
        assert(json::field_trees(error@) =~= seq![
            ("code"@, JsonTree::Number(json::integer_number(-32601))),
            ("message"@, JsonTree::Text(refusal_words(tool@, profile@))),
        ]);
    }
    let id = match msg.get("id") {
        Some(id) => id.duplicate(),
        None => Json::Null,
    };
    let ghost id_tree = id.tree();
    let error_object = Json::object(error);
    let ghost error_tree = error_object.tree();
    let mut answer: Vec<(String, Json)> = Vec::new();
    answer.push(("jsonrpc".to_owned(), Json::text("2.0")));
    answer.push(("id".to_owned(), id));
    answer.push(("error".to_owned(), error_object));
    proof {
        json::lemma_field_trees(answer@);
        assert(json::field_trees(answer@) =~= seq![
            ("jsonrpc"@, JsonTree::Text("2.0"@)),
            ("id"@, id_tree),
            ("error"@, error_tree),
        ]);
    }
    Json::object(answer)
}

/// Decides on a request from what its body reads as: `None` where it is not JSON.
pub fn inspect_message(msg: Option<&Json>, upstream: &str, profile: Option<&Profile>) -> (r:
    Inspection)
    ensures
        inspected(
            match msg {
                Some(m) => Some(m.tree()),
                None => None,
            },
            upstream@,
            match profile {
                Some(p) => Some(p.deep_view()),
                None => None,
            },
            r,
        ),
{
    match msg {
        None => Inspection::Forward { method: None },
        Some(m) => {
            let method = message_method(m);
            if let Some(p) = profile {
                let calls = match &method {
                    Some(name) => text::same_text(name.as_str(), "tools/call"),
                    None => false,
                };
                if calls {
                    if let Some(tool) = message_tool(m) {
                        let allowed = p.allowed(upstream);
                        if !contains_name(&allowed, tool.as_str()) {
                            return Inspection::Refuse(
                                refusal_message(m, tool.as_str(), p.name.as_str()),
                            );
                        }
                    }
                }
            }
            Inspection::Forward { method }
        },
    }
}

/// Decides on a request from its body.
pub fn inspect_request(body: &[u8], upstream: &str, profile: Option<&Profile>) -> (r: Inspection)
    ensures
        inspected(
            json::json_parsed(body@),
            upstream@,
            match profile {
                Some(p) => Some(p.deep_view()),
                None => None,
            },
            r,
        ),
{
    match json::parse_json(body) {
        Some(msg) => inspect_message(Some(&msg), upstream, profile),
        None => inspect_message(None, upstream, profile),
    }
}

/// The tools that a `tools/list` answer lists.
pub open spec fn listed_tools(msg: JsonTree) -> Option<Seq<JsonTree>> {
    match msg.field("result"@) {
        Some(result) => match result.field("tools"@) {
            Some(tools) => tools.items(),
            None => None,
        },
        None => None,
    }
}

/// The tool has a name, and it is one of `allowed`.
pub open spec fn tool_allowed(tool: JsonTree, allowed: Seq<Seq<char>>) -> bool {
    match tool.field("name"@) {
        Some(name) => name.text() is Some && allowed.contains(name.text()->0),
        None => false,
    }
}

/// The tools of `tools` that are allowed, in order.
pub open spec fn allowed_among(tools: Seq<JsonTree>, allowed: Seq<Seq<char>>) -> Seq<JsonTree> {
    tools.filter(|tool: JsonTree| tool_allowed(tool, allowed))
}

/// A `tools/list` answer that lists `tools`, and is otherwise `msg`.
pub open spec fn with_tools(msg: JsonTree, tools: Seq<JsonTree>) -> JsonTree {
    match msg.field("result"@) {
        Some(result) => msg.with_field(
            "result"@,
            result.with_field("tools"@, JsonTree::Array(tools)),
        ),
        None => msg,
    }
}

/// Whether a content type is that of JSON.
pub open spec fn json_content(content_type: Option<Seq<char>>) -> bool {
    content_type is Some && text::occurs(content_type->0, "application/json"@)
}

/// The tools that a `tools/list` answer lists.
pub fn message_tools(msg: &Json) -> (r: Option<&Vec<Json>>)
    ensures
        match r {
            Some(tools) => listed_tools(msg.tree()) == Some(json::trees(tools@)),
            None => listed_tools(msg.tree()) is None,
        },
{
    match msg.get("result") {
        Some(result) => match result.get("tools") {
            Some(tools) => tools.as_array(),
            None => None,
        },
        None => None,
    }
}

/// Whether the tool has a name, and it is one of `allowed`.
fn is_tool_allowed(tool: &Json, allowed: &Vec<String>) -> (r: bool)
    ensures
        r == tool_allowed(tool.tree(), allowed.deep_view()),
{
    match tool.get("name") {
        Some(name) => match name.as_str() {
            Some(name) => contains_name(allowed, name),
            None => false,
        },
        None => false,
    }
}

/// The tools of `tools` that are allowed, in order.
fn keep_allowed(tools: &Vec<Json>, allowed: &Vec<String>) -> (r: Vec<Json>)
    ensures
        json::trees(r@) == allowed_among(json::trees(tools@), allowed.deep_view()),
{
    let ghost keep = |tool: JsonTree| tool_allowed(tool, allowed.deep_view());
    let ghost all = json::trees(tools@);
    let mut out: Vec<Json> = Vec::new();
    let mut i: usize = 0;
    proof {
        json::lemma_trees(tools@);
        reveal(Seq::filter);
        assert(all.take(0) =~= Seq::empty());
    }
    while i < tools.len()
        invariant
            i <= tools@.len(),
            keep == (|tool: JsonTree| tool_allowed(tool, allowed.deep_view())),
            all == json::trees(tools@),
            all.len() == tools@.len(),
            forall|j: int| 0 <= j < tools@.len() ==> #[trigger] all[j] == tools@[j].tree(),
            json::trees(out@) == all.take(i as int).filter(keep),
        decreases tools@.len() - i,
    {
        proof {
            reveal(Seq::filter);
            assert(all.take(i + 1).drop_last() =~= all.take(i as int));
            assert(all.take(i + 1).last() == tools@[i as int].tree());
        }
        let ghost before = out@;
        if is_tool_allowed(&tools[i], allowed) {
            out.push(tools[i].duplicate());
            assert(out@.drop_last() =~= before);
        }
        i += 1;
    }
    assert(all.take(i as int) =~= all);
    out
}

/// A `tools/list` answer without the tools that are not allowed; `None` where the message lists no
/// tools.
pub fn filter_message(msg: &Json, allowed: &Vec<String>) -> (r: Option<Json>)
    ensures
        match r {
            Some(filtered) => listed_tools(msg.tree()) is Some && filtered.tree() == with_tools(
                msg.tree(),
                allowed_among(listed_tools(msg.tree())->0, allowed.deep_view()),
            ),
            None => listed_tools(msg.tree()) is None,
        },
{
    match msg.get("result") {
        Some(result) => match result.get("tools") {
            Some(tools) => match tools.as_array() {
                Some(tools) => {
                    let kept = keep_allowed(tools, allowed);
                    let result = result.with_field("tools", Json::Array(kept));
                    Some(msg.with_field("result", result))
                },
                None => None,
            },
            None => None,
        },
        None => None,
    }
}

/// Whether a content type is that of JSON.
pub fn is_json_content(content_type: Option<&str>) -> (r: bool)
    ensures
        r == json_content(
            match content_type {
                Some(ct) => Some(ct@),
                None => None,
            },
        ),
{
    match content_type {
        Some(ct) => text::contains(ct, "application/json"),
        None => false,
    }
}

/// The body of a `tools/list` answer when only `allowed` may be listed: `msg` is what the body
/// reads as. What is not JSON, or lists no tools, stays as it is.
pub open spec fn filtered_body(
    body: Seq<u8>,
    msg: Option<JsonTree>,
    allowed: Seq<Seq<char>>,
) -> Seq<u8> {
    match msg {
        Some(m) => match listed_tools(m) {
            Some(tools) => vstd::utf8::encode_utf8(
                json::json_text(with_tools(m, allowed_among(tools, allowed))),
            ),
            None => body,
        },
        None => body,
    }
}

/// The body of a `tools/list` answer of the given content type when only `allowed` may be listed:
/// `msg` is what the body reads as. Only a JSON answer is filtered.
pub open spec fn filtered_response(
    content_type: Option<Seq<char>>,
    body: Seq<u8>,
    msg: Option<JsonTree>,
    allowed: Seq<Seq<char>>,
) -> Seq<u8> {
    if json_content(content_type) {
        filtered_body(body, msg, allowed)
    } else {
        body
    }
}

/// Filter a tools/list JSON response to only include allowed tools.
pub fn filter_tools_list_response(
    content_type: Option<&str>,
    body: Vec<u8>,
    allowed: &Vec<String>,
) -> (r: Vec<u8>)
    ensures
        r@ == filtered_response(
            match content_type {
                Some(ct) => Some(ct@),
                None => None,
            },
            body@,
            json::json_parsed(body@),
            allowed.deep_view(),
        ),
{
    if !is_json_content(content_type) {
        return body;
    }
    if let Some(msg) = json::parse_json(body.as_slice()) {
        if let Some(filtered) = filter_message(&msg, allowed) {
            return filtered.to_text().as_str().as_bytes_vec();
        }
    }
    body
}

/// What is cached after a `tools/list` answer that reads as `msg`.
pub open spec fn cached_after(
    cache: Map<Seq<char>, Seq<JsonTree>>,
    upstream: Seq<char>,
    msg: Option<JsonTree>,
) -> Map<Seq<char>, Seq<JsonTree>> {
    match msg {
        Some(m) => match listed_tools(m) {
            Some(tools) => cache.insert(upstream, tools),
            None => cache,
        },
        None => cache,
    }
}

/// Keeps the tools that a `tools/list` answer lists: `msg` is what its body reads as.
pub fn cache_message(cache: &mut ToolCache, upstream_name: &str, msg: Option<&Json>)
    ensures
        final(cache)@ == cached_after(
            old(cache)@,
            upstream_name@,
            match msg {
                Some(m) => Some(m.tree()),
                None => None,
            },
        ),
{
    if let Some(m) = msg {
        if let Some(tools) = message_tools(m) {
            proof {
                json::lemma_deep_trees(tools);
            }
            cache.set_tools(upstream_name, json::duplicate_values(tools));
        }
    }
}

/// Intercept a tools/list JSON response and update the tool cache.
pub fn cache_tools_from_response(
    cache: &mut ToolCache,
    upstream_name: &str,
    content_type: Option<&str>,
    body: &[u8],
)
    ensures
        final(cache)@ == if json_content(
            match content_type {
                Some(ct) => Some(ct@),
                None => None,
            },
        ) {
            cached_after(old(cache)@, upstream_name@, json::json_parsed(body@))
        } else {
            old(cache)@
        },
{
    if is_json_content(content_type) {
        match json::parse_json(body) {
            Some(msg) => cache_message(cache, upstream_name, Some(&msg)),
            None => cache_message(cache, upstream_name, None),
        }
    }
}

/// What is to be done with the answer of an upstream.
#[derive(Debug, Clone, Copy, PartialEq, Eq, Structural)]
pub struct ResponsePlan {
    /// Have the authentication of the upstream renewed.
    pub refresh_auth: bool,
    /// Read the body and put what `finish_response` gives in its place.
    pub read_body: bool,
}

/// Decides on an answer: the authentication is renewed after a 401, and the body of a JSON answer
/// to `tools/list` is read.
pub fn plan_response(status: u16, method: Option<&str>, content_type: Option<&str>) -> (r:
    ResponsePlan)
    ensures
        r.refresh_auth == (status == 401),
        r.read_body == (method is Some && method->0@ == "tools/list"@ && json_content(
            match content_type {
                Some(ct) => Some(ct@),
                None => None,
            },
        )),
{
    let lists = match method {
        Some(name) => text::same_text(name, "tools/list"),
        None => false,
    };
    ResponsePlan {
        refresh_auth: status == 401,
        read_body: lists && is_json_content(content_type),
    }
}

/// What comes of a JSON answer to `tools/list` with the body `body`: what is cached, and the body
/// that is handed on.
pub open spec fn finished(
    cached: Map<Seq<char>, Seq<JsonTree>>,
    upstream: Seq<char>,
    profile: Option<ProfileView>,
    body: Option<Seq<u8>>,
    cached_then: Map<Seq<char>, Seq<JsonTree>>,
    r: Seq<u8>,
) -> bool {
    match body {
        None => r == Seq::<u8>::empty() && cached_then == cached,
        Some(bytes) => {
            let msg = json::json_parsed(bytes);
            &&& cached_then == cached_after(cached, upstream, msg)
            &&& r == match profile {
                Some(p) => filtered_body(bytes, msg, p.allowed(upstream)),
                None => bytes,
            }
        },
    }
}

/// The body to hand on for a JSON answer to `tools/list` with the body `body`, or `None` where
/// that could not be read. The tools are cached; through a profile only the tools that it allows
/// are handed on.
pub fn finish_response(
    cache: &mut ToolCache,
    upstream_name: &str,
    profile: Option<&Profile>,
    body: Option<Vec<u8>>,
) -> (r: Vec<u8>)
    ensures
        finished(
            old(cache)@,
            upstream_name@,
            match profile {
                Some(p) => Some(p.deep_view()),
                None => None,
            },
            match body {
                Some(bytes) => Some(bytes@),
                None => None,
            },
            final(cache)@,
            r@,
        ),
{
    let content = "application/json";
    proof {
        assert(content@.subrange(0, content@.len() as int) == content@);
        assert(text::occurs_at(content@, "application/json"@, 0));
    }
    match body {
        None => Vec::new(),
        Some(bytes) => {
            cache_tools_from_response(cache, upstream_name, Some(content), bytes.as_slice());
            match profile {
                Some(p) => {
                    let allowed = p.allowed(upstream_name);
                    filter_tools_list_response(Some(content), bytes, &allowed)
                },
                None => bytes,
            }
        },
    }
}

/// A filtered list holds allowed tools only, and nothing that was not listed.
pub proof fn law_filter_sound(tools: Seq<JsonTree>, allowed: Seq<Seq<char>>)
    ensures
        forall|i: int|
            0 <= i < allowed_among(tools, allowed).len() ==> tool_allowed(
                #[trigger] allowed_among(tools, allowed)[i],
                allowed,
            ) && tools.contains(allowed_among(tools, allowed)[i]),
    decreases tools.len(),
{
    reveal(Seq::filter);
    let keep = |tool: JsonTree| tool_allowed(tool, allowed);
    if tools.len() > 0 {
        let before = tools.drop_last();
        law_filter_sound(before, allowed);
        assert forall|i: int| 0 <= i < allowed_among(tools, allowed).len() implies tool_allowed(
            #[trigger] allowed_among(tools, allowed)[i],
            allowed,
        ) && tools.contains(allowed_among(tools, allowed)[i]) by {
            let kept = allowed_among(before, allowed);
            if i < kept.len() {
                assert(allowed_among(tools, allowed)[i] == kept[i]);
                let j = choose|j: int| 0 <= j < before.len() && before[j] == kept[i];
                assert(tools[j] == kept[i]);
            } else {
                assert(tools[tools.len() - 1] == tools.last());
            }
        }
    }
}

/// No allowed tool is lost from a filtered list.
pub proof fn law_filter_complete(tools: Seq<JsonTree>, allowed: Seq<Seq<char>>, tool: JsonTree)
    requires
        tools.contains(tool),
        tool_allowed(tool, allowed),
    ensures
        allowed_among(tools, allowed).contains(tool),
    decreases tools.len(),
{
    reveal(Seq::filter);
    let kept = allowed_among(tools, allowed);
    let before = tools.drop_last();
    if tools.last() == tool {
        assert(kept[kept.len() - 1] == tool);
    } else {
        let j = choose|j: int| 0 <= j < tools.len() && tools[j] == tool;
        assert(before[j] == tool);
        law_filter_complete(before, allowed, tool);
        let k = choose|k: int|
            0 <= k < allowed_among(before, allowed).len() && allowed_among(before, allowed)[k]
                == tool;
        assert(kept[k] == tool);
    }
}

/// To filter a second time changes nothing.
pub proof fn law_filter_idempotent(tools: Seq<JsonTree>, allowed: Seq<Seq<char>>)
    ensures
        allowed_among(allowed_among(tools, allowed), allowed) == allowed_among(tools, allowed),
    decreases tools.len(),
{
    reveal(Seq::filter);
    if tools.len() > 0 {
        let before = tools.drop_last();
        law_filter_idempotent(before, allowed);
        if tool_allowed(tools.last(), allowed) {
            let kept = allowed_among(before, allowed);
            assert(allowed_among(tools, allowed) == kept.push(tools.last()));
            assert(kept.push(tools.last()).drop_last() =~= kept);
        }
    }
}

/// `both` holds the names that are in `a` and in `b`, in any order.
pub open spec fn in_both(both: Seq<Seq<char>>, a: Seq<Seq<char>>, b: Seq<Seq<char>>) -> bool {
    forall|name: Seq<char>| #[trigger]
        both.contains(name) <==> a.contains(name) && b.contains(name)
}

/// To filter by two lists in turn keeps what both allow, in order: it is to filter once by the
/// names in both.
pub proof fn law_filter_by_two_lists(
    tools: Seq<JsonTree>,
    a: Seq<Seq<char>>,
    b: Seq<Seq<char>>,
    both: Seq<Seq<char>>,
)
    requires
        in_both(both, a, b),
    ensures
        allowed_among(allowed_among(tools, a), b) == tools.filter(
            |tool: JsonTree| tool_allowed(tool, a) && tool_allowed(tool, b),
        ),
        allowed_among(allowed_among(tools, a), b) == allowed_among(tools, both),
    decreases tools.len(),
{
    reveal(Seq::filter);
    if tools.len() > 0 {
        let before = tools.drop_last();
        law_filter_by_two_lists(before, a, b, both);
        let kept = allowed_among(before, a);
        if tool_allowed(tools.last(), a) {
            assert(allowed_among(tools, a) == kept.push(tools.last()));
            assert(kept.push(tools.last()).drop_last() =~= kept);
        }
        assert(tool_allowed(tools.last(), both) <==> tool_allowed(tools.last(), a)
            && tool_allowed(tools.last(), b));
    }
}

/// Which tools are kept depends on the allowed names alone, not on their order or on how often one
/// is given.
pub proof fn law_filter_by_names(tools: Seq<JsonTree>, a: Seq<Seq<char>>, b: Seq<Seq<char>>)
    requires
        forall|name: Seq<char>| #[trigger] a.contains(name) <==> b.contains(name),
    ensures
        allowed_among(tools, a) == allowed_among(tools, b),
{
    law_filter_by_two_lists(tools, a, a, b);
    law_filter_idempotent(tools, a);
}

/// Of two lists of tools that are put into an answer in turn, the second one stands.
pub proof fn law_tools_replaced(msg: JsonTree, first: Seq<JsonTree>, second: Seq<JsonTree>)
    requires
        listed_tools(msg) is Some,
    ensures
        with_tools(with_tools(msg, first), second) == with_tools(msg, second),
{
    let once = with_tools(msg, first);
    let result = msg.field("result"@)->0;
    let result_once = once.field("result"@)->0;
    let tools = JsonTree::Array(second);
    assert(result_once == result.with_field("tools"@, JsonTree::Array(first)));
    assert(result_once.with_field("tools"@, tools)->Object_0 =~= result.with_field(
        "tools"@,
        tools,
    )->Object_0);
    assert(with_tools(once, second)->Object_0 =~= with_tools(msg, second)->Object_0);
}

/// An answer that is filtered by two lists in turn is the answer filtered once by the names in
/// both.
pub proof fn law_message_filtered_by_two_lists(
    msg: JsonTree,
    a: Seq<Seq<char>>,
    b: Seq<Seq<char>>,
    both: Seq<Seq<char>>,
)
    requires
        listed_tools(msg) is Some,
        in_both(both, a, b),
    ensures
        ({
            let listed = listed_tools(msg)->0;
            let once = with_tools(msg, allowed_among(listed, a));
            &&& listed_tools(once) == Some(allowed_among(listed, a))
            &&& with_tools(once, allowed_among(allowed_among(listed, a), b)) == with_tools(
                msg,
                allowed_among(listed, both),
            )
        }),
{
    let listed = listed_tools(msg)->0;
    law_filter_keeps_rest(msg, allowed_among(listed, a), "id"@);
    law_filter_by_two_lists(listed, a, b, both);
    law_tools_replaced(msg, allowed_among(listed, a), allowed_among(listed, both));
}

/// The body of an answer that is filtered by two lists in turn is its body filtered once by the
/// names in both, whatever its content type, and also where it is not JSON or lists no tools. The
/// filtered body has to read as the message that was written, which is not so of every number:
/// `serde_json` may read a floating-point number that it wrote as a neighbouring one.
pub proof fn law_response_filtered_by_two_lists(
    content_type: Option<Seq<char>>,
    body: Seq<u8>,
    a: Seq<Seq<char>>,
    b: Seq<Seq<char>>,
    both: Seq<Seq<char>>,
)
    requires
        in_both(both, a, b),
        (json_content(content_type) && json::json_parsed(body) is Some && listed_tools(
            json::json_parsed(body)->0,
        ) is Some) ==> json::json_parsed(
            filtered_response(content_type, body, json::json_parsed(body), a),
        ) == Some(
            with_tools(
                json::json_parsed(body)->0,
                allowed_among(listed_tools(json::json_parsed(body)->0)->0, a),
            ),
        ),
    ensures
        ({
            let once = filtered_response(content_type, body, json::json_parsed(body), a);
            filtered_response(content_type, once, json::json_parsed(once), b) == filtered_response(
                content_type,
                body,
                json::json_parsed(body),
                both,
            )
        }),
{
    if json::json_parsed(body) is Some && listed_tools(json::json_parsed(body)->0) is Some {
        law_message_filtered_by_two_lists(json::json_parsed(body)->0, a, b, both);
    }
}

/// A filtered answer lists the filtered tools and differs from the answer in nothing else.
pub proof fn law_filter_keeps_rest(msg: JsonTree, tools: Seq<JsonTree>, name: Seq<char>)
    requires
        listed_tools(msg) is Some,
    ensures
        listed_tools(with_tools(msg, tools)) == Some(tools),
        name != "result"@ ==> with_tools(msg, tools).field(name) == msg.field(name),
        name != "tools"@ ==> with_tools(msg, tools).field("result"@)->0.field(name) == msg.field(
            "result"@,
        )->0.field(name),
{
}

/// Through a profile that does not list an upstream, no tool of that upstream is accessible: every
/// call is refused, and every list comes back empty.
pub proof fn law_unlisted_upstream(
    profile: ProfileView,
    upstream: Seq<char>,
    msg: JsonTree,
    tools: Seq<JsonTree>,
)
    requires
        !profile.allowed_tools.contains_key(upstream),
    ensures
        method_of(msg) == Some("tools/call"@) && called_tool(msg) is Some ==> refused_tool(
            msg,
            profile.allowed(upstream),
        ) == called_tool(msg),
        allowed_among(tools, profile.allowed(upstream)).len() == 0,
{
    law_filter_sound(tools, profile.allowed(upstream));
    let kept = allowed_among(tools, profile.allowed(upstream));
    if kept.len() > 0 {
        assert(tool_allowed(kept[0], profile.allowed(upstream)));
    }
}

/// A tool can be called through a profile exactly when the profile leaves it in a list.
pub proof fn law_listed_iff_callable(
    msg: JsonTree,
    tool: JsonTree,
    tools: Seq<JsonTree>,
    allowed: Seq<Seq<char>>,
)
    requires
        method_of(msg) == Some("tools/call"@),
        called_tool(msg) is Some,
        tool.field("name"@) is Some,
        tool.field("name"@)->0.text() == called_tool(msg),
        tools.contains(tool),
    ensures
        refused_tool(msg, allowed) is None <==> allowed_among(tools, allowed).contains(tool),
{
    law_filter_sound(tools, allowed);
    if refused_tool(msg, allowed) is None {
        law_filter_complete(tools, allowed, tool);
    }
    if allowed_among(tools, allowed).contains(tool) {
        let kept = allowed_among(tools, allowed);
        let i = choose|i: int| 0 <= i < kept.len() && kept[i] == tool;
        assert(tool_allowed(kept[i], allowed));
    }
}

/// Through a profile, the answer to `tools/list` that is handed on is a message that lists exactly
/// the tools that were listed and are allowed.
pub proof fn law_profile_answer_is_limited(
    cached: Map<Seq<char>, Seq<JsonTree>>,
    upstream: Seq<char>,
    profile: ProfileView,
    body: Seq<u8>,
    cached_then: Map<Seq<char>, Seq<JsonTree>>,
    r: Seq<u8>,
    tool: JsonTree,
)
    requires
        finished(cached, upstream, Some(profile), Some(body), cached_then, r),
        json::json_parsed(body) is Some,
        listed_tools(json::json_parsed(body)->0) is Some,
    ensures
        ({
            let msg = json::json_parsed(body)->0;
            let listed = listed_tools(msg)->0;
            let allowed = profile.allowed(upstream);
            let answer = with_tools(msg, allowed_among(listed, allowed));
            &&& r == vstd::utf8::encode_utf8(json::json_text(answer))
            &&& listed_tools(answer) is Some
            &&& listed_tools(answer)->0.contains(tool) <==> listed.contains(tool) && tool_allowed(
                tool,
                allowed,
            )
        }),
{
    let msg = json::json_parsed(body)->0;
    let listed = listed_tools(msg)->0;
    let allowed = profile.allowed(upstream);
    let kept = allowed_among(listed, allowed);
    law_filter_keeps_rest(msg, kept, "id"@);
    law_filter_sound(listed, allowed);
    if kept.contains(tool) {
        let i = choose|i: int| 0 <= i < kept.len() && kept[i] == tool;
        assert(tool_allowed(kept[i], allowed));
    }
    if listed.contains(tool) && tool_allowed(tool, allowed) {
        law_filter_complete(listed, allowed, tool);
    }
}

/// What is cached does not depend on the profile through which the tools were listed.
pub proof fn law_cache_ignores_profiles(
    cached: Map<Seq<char>, Seq<JsonTree>>,
    upstream: Seq<char>,
    profile: Option<ProfileView>,
    other: Option<ProfileView>,
    body: Option<Seq<u8>>,
    cached_then: Map<Seq<char>, Seq<JsonTree>>,
    other_then: Map<Seq<char>, Seq<JsonTree>>,
    r: Seq<u8>,
    other_r: Seq<u8>,
)
    requires
        finished(cached, upstream, profile, body, cached_then, r),
        finished(cached, upstream, other, body, other_then, other_r),
    ensures
        cached_then == other_then,
{
}

/// A refusal answers the message that it refuses: it carries that message's id.
pub proof fn law_refusal_answers(msg: JsonTree, tool: Seq<char>, profile: Seq<char>)
    ensures
        refusal(msg, tool, profile).field("id"@) == Some(
            match msg.field("id"@) {
                Some(id) => id,
                None => JsonTree::Null,
            },
        ),
        refusal(msg, tool, profile).field("jsonrpc"@) == Some(JsonTree::Text("2.0"@)),
        refusal(msg, tool, profile).field("error"@) is Some,
        refusal(msg, tool, profile).field("result"@) is None,
{
    reveal_strlit("id");
    reveal_strlit("jsonrpc");
    reveal_strlit("error");
    reveal_strlit("result");
    let id = match msg.field("id"@) {
        Some(id) => id,
        None => JsonTree::Null,
    };
    let error = JsonTree::Object(
        json::fields_map(
            seq![
                ("code"@, JsonTree::Number(json::integer_number(-32601))),
                ("message"@, JsonTree::Text(refusal_words(tool, profile))),
            ],
        ),
    );
    let fields = seq![("jsonrpc"@, JsonTree::Text("2.0"@)), ("id"@, id), ("error"@, error)];
    assert("id"@.len() == 2 && "jsonrpc"@.len() == 7 && "error"@.len() == 5 && "result"@.len() == 6);
    json::lemma_fields_map_last(fields, 0);
    json::lemma_fields_map_last(fields, 1);
    json::lemma_fields_map_last(fields, 2);
    json::lemma_fields_map_absent(fields, "result"@);
}

/// A message is a call of the tool `tool`: its method is `tools/call`, and its params have that
/// name. Whatever other fields the message and its params have makes no difference.
pub open spec fn is_call_of(msg: JsonTree, tool: Seq<char>) -> bool {
    &&& msg matches JsonTree::Object(fields)
    &&& fields.contains_key("method"@) && fields["method"@] == JsonTree::Text("tools/call"@)
    &&& fields.contains_key("params"@)
    &&& fields["params"@] matches JsonTree::Object(params)
    &&& params.contains_key("name"@) && params["name"@] == JsonTree::Text(tool)
}

/// A message is refused exactly when it is a call of a tool that is not allowed, whatever else
/// stands in it, and it is refused for that tool.
pub proof fn law_refused_iff_disallowed_call(
    msg: JsonTree,
    tool: Seq<char>,
    allowed: Seq<Seq<char>>,
)
    ensures
        is_call_of(msg, tool) && !allowed.contains(tool) ==> refused_tool(msg, allowed) == Some(
            tool,
        ),
        is_call_of(msg, tool) && allowed.contains(tool) ==> refused_tool(msg, allowed) is None,
        (forall|t: Seq<char>| !is_call_of(msg, t)) ==> refused_tool(msg, allowed) is None,
        refused_tool(msg, allowed) matches Some(t) ==> is_call_of(msg, t) && !allowed.contains(t),
{
    if refused_tool(msg, allowed) is Some {
        assert(is_call_of(msg, refused_tool(msg, allowed)->0));
    }
}

/// Through a profile a request is not forwarded exactly when its body is a call of a tool of that
/// upstream which the profile does not list, whatever else stands in it; without a profile every
/// request is forwarded.
pub proof fn law_profile_refuses(
    msg: JsonTree,
    tool: Seq<char>,
    upstream: Seq<char>,
    profile: ProfileView,
    limited: Inspection,
    unlimited: Inspection,
    unread: Inspection,
)
    requires
        inspected(Some(msg), upstream, Some(profile), limited),
        inspected(Some(msg), upstream, None, unlimited),
        inspected(None, upstream, Some(profile), unread),
    ensures
        is_call_of(msg, tool) ==> (limited is Refuse <==> !(profile.allowed_tools.contains_key(
            upstream,
        ) && profile.allowed_tools[upstream].contains(tool))),
        limited is Refuse ==> exists|t: Seq<char>| is_call_of(msg, t),
        is_call_of(msg, tool) && limited is Refuse ==> limited->Refuse_0.tree() == refusal(
            msg,
            tool,
            profile.name,
        ),
        unlimited is Forward,
        unread is Forward,
{
    law_refused_iff_disallowed_call(msg, tool, profile.allowed(upstream));
    if limited is Refuse {
        assert(is_call_of(msg, refused_tool(msg, profile.allowed(upstream))->0));
    }
}

/// The method that is handed on with a forwarded request is the text under `method` in its body,
/// where there is one.
pub proof fn law_forwarded_method(
    msg: JsonTree,
    upstream: Seq<char>,
    profile: Option<ProfileView>,
    method: Option<String>,
)
    requires
        inspected(Some(msg), upstream, profile, Inspection::Forward { method }),
    ensures
        method matches Some(name) ==> msg is Object && msg->Object_0.contains_key("method"@)
            && msg->Object_0["method"@] == JsonTree::Text(name@),
        method is None ==> !(msg is Object && msg->Object_0.contains_key("method"@)
            && msg->Object_0["method"@] is Text),
{
}

/// A refusal is a JSON-RPC error of the code -32601 whose message names the tool and the profile.
pub proof fn law_refusal_says_why(msg: JsonTree, tool: Seq<char>, profile: Seq<char>)
    ensures
        refusal(msg, tool, profile).field("error"@) matches Some(error) && error.field("code"@)
            == Some(JsonTree::Number(json::integer_number(-32601))) && error.field("message"@)
            == Some(
            JsonTree::Text(
                "tool '"@ + tool + "' is not allowed in profile '"@ + profile + "'"@,
            ),
        ),
{
    law_refusal_answers(msg, tool, profile);
    reveal_strlit("code");
    reveal_strlit("message");
    reveal_strlit("id");
    reveal_strlit("jsonrpc");
    reveal_strlit("error");
    let id = match msg.field("id"@) {
        Some(id) => id,
        None => JsonTree::Null,
    };
    let inner = seq![
        ("code"@, JsonTree::Number(json::integer_number(-32601))),
        (
            "message"@,
            JsonTree::Text(
                "tool '"@ + tool + "' is not allowed in profile '"@ + profile + "'"@,
            ),
        ),
    ];
    assert("code"@.len() == 4 && "message"@.len() == 7);
    json::lemma_fields_map_last(inner, 0);
    json::lemma_fields_map_last(inner, 1);
    let error = JsonTree::Object(json::fields_map(inner));
    let outer = seq![("jsonrpc"@, JsonTree::Text("2.0"@)), ("id"@, id), ("error"@, error)];
    json::lemma_fields_map_last(outer, 2);
}

/// A message lists tools exactly when its result has an array of that name, whatever else stands
/// in it.
pub proof fn law_listed_tools(msg: JsonTree, tools: Seq<JsonTree>)
    ensures
        listed_tools(msg) == Some(tools) <==> {
            &&& msg matches JsonTree::Object(fields)
            &&& fields.contains_key("result"@)
            &&& fields["result"@] matches JsonTree::Object(result)
            &&& result.contains_key("tools"@) && result["tools"@] == JsonTree::Array(tools)
        },
{
}

/// A tool is allowed exactly when it has a name that is among the allowed ones, whatever else it
/// has.
pub proof fn law_tool_allowed(tool: JsonTree, allowed: Seq<Seq<char>>)
    ensures
        tool_allowed(tool, allowed) <==> exists|i: int|
            0 <= i < allowed.len() && tool is Object && tool->Object_0.contains_key("name"@)
                && tool->Object_0["name"@] == JsonTree::Text(#[trigger] allowed[i]),
{
    if tool_allowed(tool, allowed) {
        let name = tool.field("name"@)->0.text()->0;
        let i = choose|i: int| 0 <= i < allowed.len() && allowed[i] == name;
        assert(tool->Object_0["name"@] == JsonTree::Text(allowed[i]));
    }
}

/// Only a content type that names JSON somewhere is that of JSON, and every such one is.
pub proof fn law_json_content(before: Seq<char>, after: Seq<char>, other: Seq<char>)
    ensures
        json_content(Some(before + "application/json"@ + after)),
        json_content(Some(other)) ==> exists|a: Seq<char>, b: Seq<char>| other == #[trigger] (a
            + "application/json"@ + b),
        !json_content(None),
{
    text::law_occurs(before, "application/json"@, after, other);
}

/// A body that is not JSON or lists no tools is handed on as it is, and so is any body where there
/// is no profile or the content type is not that of JSON.
pub proof fn law_other_bodies_unchanged(
    content_type: Option<Seq<char>>,
    body: Seq<u8>,
    msg: Option<JsonTree>,
    allowed: Seq<Seq<char>>,
    cached: Map<Seq<char>, Seq<JsonTree>>,
    upstream: Seq<char>,
    cached_then: Map<Seq<char>, Seq<JsonTree>>,
    r: Seq<u8>,
)
    ensures
        msg is None ==> filtered_body(body, msg, allowed) == body,
        msg is Some && listed_tools(msg->0) is None ==> filtered_body(body, msg, allowed) == body,
        !json_content(content_type) ==> filtered_response(content_type, body, msg, allowed) == body,
        json_content(content_type) ==> filtered_response(content_type, body, msg, allowed)
            == filtered_body(body, msg, allowed),
        finished(cached, upstream, None, Some(body), cached_then, r) ==> r == body,
        finished(cached, upstream, None, None, cached_then, r) ==> r.len() == 0 && cached_then
            == cached,
{
}

/// A filtered body is the text of the message with exactly the allowed tools in its list.
pub proof fn law_filtered_body(body: Seq<u8>, msg: JsonTree, allowed: Seq<Seq<char>>)
    requires
        listed_tools(msg) is Some,
    ensures
        exists|answer: JsonTree|
            filtered_body(body, Some(msg), allowed) == vstd::utf8::encode_utf8(
                json::json_text(answer),
            ) && #[trigger] listed_tools(answer) == Some(
                listed_tools(msg)->0.filter(|tool: JsonTree| tool_allowed(tool, allowed)),
            ),
{
    let kept = allowed_among(listed_tools(msg)->0, allowed);
    let answer = with_tools(msg, kept);
    law_filter_keeps_rest(msg, kept, "id"@);
    assert(listed_tools(answer) == Some(kept));
}

/// The tools that an answer lists are cached for its upstream, all of them, and nothing else is
/// changed; an answer that lists none changes nothing.
pub proof fn law_listed_tools_are_cached(
    cached: Map<Seq<char>, Seq<JsonTree>>,
    upstream: Seq<char>,
    profile: Option<ProfileView>,
    body: Seq<u8>,
    cached_then: Map<Seq<char>, Seq<JsonTree>>,
    r: Seq<u8>,
    other: Seq<char>,
    tools: Seq<JsonTree>,
)
    requires
        finished(cached, upstream, profile, Some(body), cached_then, r),
    ensures
        json::json_parsed(body) is Some && listed_tools(json::json_parsed(body)->0) == Some(tools)
            ==> cached_then.contains_key(upstream) && cached_then[upstream] == tools,
        json::json_parsed(body) is None || listed_tools(json::json_parsed(body)->0) is None
            ==> cached_then == cached,
        other != upstream ==> cached_then.contains_key(other) == cached.contains_key(other),
        other != upstream && cached.contains_key(other) ==> cached_then[other] == cached[other],
{
}

/// Tools are kept in their order: those of two lists, one after the other, are those of each.
pub proof fn law_tool_order(a: Seq<JsonTree>, b: Seq<JsonTree>, allowed: Seq<Seq<char>>)
    ensures
        allowed_among(a + b, allowed) == allowed_among(a, allowed) + allowed_among(b, allowed),
    decreases b.len(),
{
    reveal(Seq::filter);
    if b.len() == 0 {
        assert(a + b =~= a);
        assert(allowed_among(b, allowed) =~= Seq::empty());
        assert(allowed_among(a, allowed) + allowed_among(b, allowed) =~= allowed_among(a, allowed));
    } else {
        law_tool_order(a, b.drop_last(), allowed);
        assert((a + b).drop_last() =~= a + b.drop_last());
        assert((a + b).last() == b.last());
        assert(allowed_among(a + b, allowed) =~= allowed_among(a, allowed) + allowed_among(
            b,
            allowed,
        ));
    }
}

/// The authentication is renewed exactly after a 401, and a body is read exactly where it is a JSON
/// answer to `tools/list`, whatever its status.
pub proof fn law_response_plan(
    status: u16,
    method: &str,
    content_type: &str,
    r: ResponsePlan,
    unnamed: ResponsePlan,
    untyped: ResponsePlan,
)
    requires
        call_ensures(plan_response, (status, Some(method), Some(content_type)), r),
        call_ensures(plan_response, (status, None, Some(content_type)), unnamed),
        call_ensures(plan_response, (status, Some(method), None), untyped),
    ensures
        r.refresh_auth <==> status == 401,
        unnamed.refresh_auth <==> status == 401,
        untyped.refresh_auth <==> status == 401,
        r.read_body <==> method@ == "tools/list"@ && text::occurs(
            content_type@,
            "application/json"@,
        ),
        !unnamed.read_body,
        !untyped.read_body,
{
}

/// A message that lists tools is filtered, and no other is: the tools that are allowed stay, in
/// their order, and the rest of the message stays as it is.
pub proof fn law_filtered_message(
    msg: &Json,
    allowed: &Vec<String>,
    r: Option<Json>,
    name: Seq<char>,
    tool: JsonTree,
)
    requires
        call_ensures(filter_message, (msg, allowed), r),
        name != "result"@,
    ensures
        r is Some <==> listed_tools(msg.tree()) is Some,
        r is Some ==> r->0.tree().field(name) == msg.tree().field(name),
        r is Some ==> listed_tools(r->0.tree()) is Some,
        r is Some ==> (listed_tools(r->0.tree())->0.contains(tool) <==> listed_tools(
            msg.tree(),
        )->0.contains(tool) && tool_allowed(tool, allowed.deep_view())),
{
    if let Some(filtered) = r {
        let listed = listed_tools(msg.tree())->0;
        let kept = allowed_among(listed, allowed.deep_view());
        law_filter_keeps_rest(msg.tree(), kept, name);
        law_filter_sound(listed, allowed.deep_view());
        if kept.contains(tool) {
            let k = choose|k: int| 0 <= k < kept.len() && kept[k] == tool;
            assert(kept[k] == tool);
        }
        if listed.contains(tool) && tool_allowed(tool, allowed.deep_view()) {
            law_filter_complete(listed, allowed.deep_view(), tool);
        }
    }
}

} // verus!
