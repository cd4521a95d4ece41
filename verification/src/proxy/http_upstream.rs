//! HTTP upstream transport: what a request to an HTTP MCP server is made of, and what is handed on
//! of the answer. Header names are in lower case, as HTTP/2 writes them.
use vstd::prelude::*;
use vstd::string::*;
use crate::text;

verus! {

/// An upstream that is an HTTP server.
#[derive(Debug)]
pub struct HttpUpstream {
    pub base_url: String,
}

/// The path and the query of a URI; `None` where the text is not a URI.
pub uninterp spec fn uri_parts(uri: Seq<char>) -> Option<(Seq<char>, Option<Seq<char>>)>;

/// The path and the query of a URI (`http::Uri::from_str`, `http::Uri::path` and
/// `http::Uri::query`).
#[verifier::external_body]
fn read_uri(uri: &str) -> (r: Option<(String, Option<String>)>)
    ensures
        r.deep_view() == uri_parts(uri@),
{
    match uri.parse::<http::Uri>() {
        Ok(u) => Some((u.path().to_owned(), u.query().map(|q| q.to_owned()))),
        Err(_) => None,
    }
}

/// The path and the query that a request is forwarded with, where `parts` are those of what is
/// left of its path. What is not a URI is forwarded as `/`.
pub open spec fn target_of(parts: Option<(Seq<char>, Option<Seq<char>>)>) -> (
    Seq<char>,
    Option<Seq<char>>,
) {
    match parts {
        Some(parts) => parts,
        None => ("/"@, None),
    }
}

/// The path and the query that a request is forwarded with.
#[derive(Debug)]
pub struct Target {
    pub path: String,
    pub query: Option<String>,
}

impl DeepView for Target {
    type V = (Seq<char>, Option<Seq<char>>);

    open spec fn deep_view(&self) -> (Seq<char>, Option<Seq<char>>) {
        (self.path@, self.query.deep_view())
    }
}

/// The path and the query that a request is forwarded with, from those of a URI.
pub fn target_from_parts(parts: Option<(String, Option<String>)>) -> (r: Target)
    ensures
        r.deep_view() == target_of(parts.deep_view()),
{
    match parts {
        Some((path, query)) => Target { path, query },
        None => Target { path: "/".to_owned(), query: None },
    }
}

/// The path and the query that a request is forwarded with, from what is left of its path.
pub fn rewrite_uri(remaining: &str) -> (r: Target)
    ensures
        r.deep_view() == target_of(uri_parts(remaining@)),
{
    target_from_parts(read_uri(remaining))
}

/// A header of that name is not sent to the upstream.
pub open spec fn is_dropped_request_header(name: Seq<char>) -> bool {
    name == "host"@ || name == "connection"@
}

/// A header of that name is not handed back to the client.
pub open spec fn is_dropped_response_header(name: Seq<char>) -> bool {
    name == "transfer-encoding"@
}

/// The headers of a request that go to the upstream, in order.
pub open spec fn kept_request_headers(headers: Seq<(Seq<char>, Seq<u8>)>) -> Seq<
    (Seq<char>, Seq<u8>),
> {
    headers.filter(|h: (Seq<char>, Seq<u8>)| !is_dropped_request_header(h.0))
}

/// The headers of an answer that go to the client, in order.
pub open spec fn kept_response_headers(headers: Seq<(Seq<char>, Seq<u8>)>) -> Seq<
    (Seq<char>, Seq<u8>),
> {
    headers.filter(|h: (Seq<char>, Seq<u8>)| !is_dropped_response_header(h.0))
}

/// The injected headers, with their values as bytes.
pub open spec fn injected_headers(auth: Seq<(Seq<char>, Seq<char>)>) -> Seq<(Seq<char>, Seq<u8>)> {
    auth.map_values(|h: (Seq<char>, Seq<char>)| (h.0, vstd::utf8::encode_utf8(h.1)))
}

/// The address at the upstream.
pub open spec fn upstream_url(base_url: Seq<char>, path: Seq<char>, query: Option<Seq<char>>) -> Seq<
    char,
> {
    match query {
        Some(q) => base_url + path + "?"@ + q,
        None => base_url + path,
    }
}

/// The method that a request is sent with: one that is not known is sent as `GET`.
pub open spec fn sent_method(method: Seq<char>) -> Seq<char> {
    if method == "POST"@ || method == "PUT"@ || method == "DELETE"@ || method == "PATCH"@ || method
        == "HEAD"@ || method == "OPTIONS"@ {
        method
    } else {
        "GET"@
    }
}

/// What the list of headers says.
pub open spec fn header_views(headers: Seq<(String, Vec<u8>)>) -> Seq<(Seq<char>, Seq<u8>)> {
    Seq::new(headers.len(), |i: int| (headers[i].0@, headers[i].1@))
}

/// A request to the upstream.
#[derive(Debug)]
pub struct UpstreamRequest {
    pub method: String,
    pub url: String,
    pub headers: Vec<(String, Vec<u8>)>,
    pub body: Option<Vec<u8>>,
}

/// The bytes again.
fn duplicate_bytes(bytes: &Vec<u8>) -> (r: Vec<u8>)
    ensures
        r@ == bytes@,
{
    let mut out: Vec<u8> = Vec::new();
    out.extend_from_slice(bytes.as_slice());
    assert(out@ =~= bytes@);
    out
}

/// The method that a request is sent with.
pub fn convert_method(method: &str) -> (r: String)
    ensures
        r@ == sent_method(method@),
{
    if text::same_text(method, "POST") || text::same_text(method, "PUT") || text::same_text(
        method,
        "DELETE",
    ) || text::same_text(method, "PATCH") || text::same_text(method, "HEAD") || text::same_text(
        method,
        "OPTIONS",
    ) {
        method.to_owned()
    } else {
        "GET".to_owned()
    }
}

/// The headers of a request that go to the upstream.
fn keep_request_headers(headers: &Vec<(String, Vec<u8>)>) -> (r: Vec<(String, Vec<u8>)>)
    ensures
        header_views(r@) == kept_request_headers(header_views(headers@)),
{
    let ghost all = header_views(headers@);
    let ghost keep = |h: (Seq<char>, Seq<u8>)| !is_dropped_request_header(h.0);
    let mut out: Vec<(String, Vec<u8>)> = Vec::new();
    let mut i: usize = 0;
    proof {
        reveal(Seq::filter);
        assert(all.take(0) =~= Seq::empty());
        assert(header_views(out@) =~= Seq::empty());
    }
    while i < headers.len()
        invariant
            i <= headers@.len(),
            all == header_views(headers@),
            keep == (|h: (Seq<char>, Seq<u8>)| !is_dropped_request_header(h.0)),
            header_views(out@) == all.take(i as int).filter(keep),
        decreases headers@.len() - i,
    {
        let ghost before = header_views(out@);
        proof {
            reveal(Seq::filter);
            assert(all.take(i + 1).drop_last() =~= all.take(i as int));
            assert(all.take(i + 1).last() == all[i as int]);
        }
        let name = headers[i].0.as_str();
        if !(text::same_text(name, "host") || text::same_text(name, "connection")) {
            out.push((headers[i].0.clone(), duplicate_bytes(&headers[i].1)));
            assert(header_views(out@) =~= before.push(all[i as int]));
        }
        i += 1;
    }
    assert(all.take(i as int) =~= all);
    out
}

/// The headers of an answer that go to the client.
pub fn response_headers(headers: &Vec<(String, Vec<u8>)>) -> (r: Vec<(String, Vec<u8>)>)
    ensures
        header_views(r@) == kept_response_headers(header_views(headers@)),
{
    let ghost all = header_views(headers@);
    let ghost keep = |h: (Seq<char>, Seq<u8>)| !is_dropped_response_header(h.0);
    let mut out: Vec<(String, Vec<u8>)> = Vec::new();
    let mut i: usize = 0;
    proof {
        reveal(Seq::filter);
        assert(all.take(0) =~= Seq::empty());
        assert(header_views(out@) =~= Seq::empty());
    }
    while i < headers.len()
        invariant
            i <= headers@.len(),
            all == header_views(headers@),
            keep == (|h: (Seq<char>, Seq<u8>)| !is_dropped_response_header(h.0)),
            header_views(out@) == all.take(i as int).filter(keep),
        decreases headers@.len() - i,
    {
        let ghost before = header_views(out@);
        proof {
            reveal(Seq::filter);
            assert(all.take(i + 1).drop_last() =~= all.take(i as int));
            assert(all.take(i + 1).last() == all[i as int]);
        }
        if !text::same_text(headers[i].0.as_str(), "transfer-encoding") {
            out.push((headers[i].0.clone(), duplicate_bytes(&headers[i].1)));
            assert(header_views(out@) =~= before.push(all[i as int]));
        }
        i += 1;
    }
    assert(all.take(i as int) =~= all);
    out
}

/// Whether the body of an answer is streamed, from its content type.
pub fn is_event_stream(content_type: Option<&str>) -> (r: bool)
    ensures
        r == (content_type is Some && text::occurs(content_type->0@, "text/event-stream"@)),
{
    match content_type {
        Some(ct) => text::contains(ct, "text/event-stream"),
        None => false,
    }
}

impl HttpUpstream {
    /// The upstream at `base_url`, of which trailing slashes are dropped.
    pub fn new(base_url: String) -> (r: HttpUpstream)
        ensures
            r.base_url@ == text::strip_trailing(base_url@, '/'),
    {
        HttpUpstream { base_url: text::trim_end_matches(base_url.as_str(), '/').to_owned() }
    }

    /// The request to the upstream: the headers of the client's request but for Host and
    /// Connection, then the injected ones, and the body, if it is not empty.
    pub fn forward(
        &self,
        method: &str,
        target: &Target,
        headers: &Vec<(String, Vec<u8>)>,
        auth_headers: &Vec<(String, String)>,
        body: Vec<u8>,
    ) -> (r: UpstreamRequest)
        ensures
            r.method@ == sent_method(method@),
            r.url@ == upstream_url(self.base_url@, target.path@, target.query.deep_view()),
            header_views(r.headers@) == kept_request_headers(header_views(headers@))
                + injected_headers(auth_headers.deep_view()),
            match r.body {
                Some(sent) => body@.len() > 0 && sent@ == body@,
                None => body@.len() == 0,
            },
    {
        let url = match &target.query {
            Some(q) => self.base_url.clone().concat(target.path.as_str()).concat("?").concat(
                q.as_str(),
            ),
            None => self.base_url.clone().concat(target.path.as_str()),
        };
        let mut out = keep_request_headers(headers);
        let ghost kept = header_views(out@);
        let ghost auth = injected_headers(auth_headers.deep_view());
        let mut i: usize = 0;
        assert(kept + auth.take(0) =~= kept);
        while i < auth_headers.len()
            invariant
                i <= auth_headers@.len(),
                auth == injected_headers(auth_headers.deep_view()),
                header_views(out@) == kept + auth.take(i as int),
            decreases auth_headers@.len() - i,
        {
            let ghost before = header_views(out@);
            out.push((auth_headers[i].0.clone(), auth_headers[i].1.as_str().as_bytes_vec()));
            proof {
                assert(header_views(out@) =~= before.push(auth[i as int]));
                assert(auth.take(i + 1) =~= auth.take(i as int).push(auth[i as int]));
                assert(kept + auth.take(i + 1) =~= (kept + auth.take(i as int)).push(
                    auth[i as int],
                ));
            }
            i += 1;
        }
        assert(auth.take(i as int) =~= auth);
        UpstreamRequest {
            method: convert_method(method),
            url,
            headers: out,
            body: if body.len() == 0 {
                None
            } else {
                Some(body)
            },
        }
    }
}

/// The client's headers reach the upstream exactly when they are neither Host nor Connection.
pub proof fn law_client_headers(headers: Seq<(Seq<char>, Seq<u8>)>, h: (Seq<char>, Seq<u8>))
    ensures
        kept_request_headers(headers).contains(h) <==> headers.contains(h)
            && !is_dropped_request_header(h.0),
    decreases headers.len(),
{
    reveal(Seq::filter);
    let kept = kept_request_headers(headers);
    if headers.len() > 0 {
        let before = headers.drop_last();
        let rest = kept_request_headers(before);
        law_client_headers(before, h);
        if kept.contains(h) {
            let i = choose|i: int| 0 <= i < kept.len() && kept[i] == h;
            if i < rest.len() {
                assert(rest[i] == h);
                let j = choose|j: int| 0 <= j < before.len() && before[j] == h;
                assert(headers[j] == h);
            } else {
                assert(headers[headers.len() - 1] == h);
            }
        }
        if headers.contains(h) && !is_dropped_request_header(h.0) {
            if headers.last() == h {
                assert(kept[kept.len() - 1] == h);
            } else {
                let j = choose|j: int| 0 <= j < headers.len() && headers[j] == h;
                assert(before[j] == h);
                let i = choose|i: int| 0 <= i < rest.len() && rest[i] == h;
                assert(kept[i] == h);
            }
        }
    }
}

/// Exactly Host and Connection are kept from the upstream, and exactly Transfer-Encoding from the
/// client.
pub proof fn law_dropped_headers(headers: Seq<(Seq<char>, Seq<u8>)>, h: (Seq<char>, Seq<u8>))
    ensures
        kept_request_headers(headers).contains(h) <==> headers.contains(h) && h.0 != "host"@ && h.0
            != "connection"@,
        kept_response_headers(headers).contains(h) <==> headers.contains(h) && h.0
            != "transfer-encoding"@,
{
    law_client_headers(headers, h);
    lemma_kept_response_headers(headers, h);
}

/// A header is kept for the client exactly when it is not one to be dropped.
proof fn lemma_kept_response_headers(
    headers: Seq<(Seq<char>, Seq<u8>)>,
    h: (Seq<char>, Seq<u8>),
)
    ensures
        kept_response_headers(headers).contains(h) <==> headers.contains(h)
            && !is_dropped_response_header(h.0),
    decreases headers.len(),
{
    reveal(Seq::filter);
    let kept = kept_response_headers(headers);
    if headers.len() > 0 {
        let before = headers.drop_last();
        let rest = kept_response_headers(before);
        lemma_kept_response_headers(before, h);
        if kept.contains(h) {
            let i = choose|i: int| 0 <= i < kept.len() && kept[i] == h;
            if i < rest.len() {
                assert(rest[i] == h);
                let j = choose|j: int| 0 <= j < before.len() && before[j] == h;
                assert(headers[j] == h);
            } else {
                assert(headers[headers.len() - 1] == h);
            }
        }
        if headers.contains(h) && !is_dropped_response_header(h.0) {
            if headers.last() == h {
                assert(kept[kept.len() - 1] == h);
            } else {
                let j = choose|j: int| 0 <= j < headers.len() && headers[j] == h;
                assert(before[j] == h);
                let i = choose|i: int| 0 <= i < rest.len() && rest[i] == h;
                assert(kept[i] == h);
            }
        }
    }
}

/// Headers of which none is to be dropped go through as they are, in order and as often as they
/// stand there.
pub proof fn law_other_headers_unchanged(headers: Seq<(Seq<char>, Seq<u8>)>)
    ensures
        (forall|i: int|
            0 <= i < headers.len() ==> (#[trigger] headers[i]).0 != "host"@ && headers[i].0
                != "connection"@) ==> kept_request_headers(headers) == headers,
        (forall|i: int|
            0 <= i < headers.len() ==> (#[trigger] headers[i]).0 != "transfer-encoding"@)
            ==> kept_response_headers(headers) == headers,
    decreases headers.len(),
{
    reveal(Seq::filter);
    if headers.len() > 0 {
        let before = headers.drop_last();
        law_other_headers_unchanged(before);
        assert(before.push(headers.last()) =~= headers);
        assert(headers[headers.len() - 1] == headers.last());
        if forall|i: int|
            0 <= i < headers.len() ==> (#[trigger] headers[i]).0 != "host"@ && headers[i].0
                != "connection"@ {
            assert forall|i: int| 0 <= i < before.len() implies (#[trigger] before[i]).0 != "host"@
                && before[i].0 != "connection"@ by {
                assert(before[i] == headers[i]);
            }
        }
        if forall|i: int|
            0 <= i < headers.len() ==> (#[trigger] headers[i]).0 != "transfer-encoding"@ {
            assert forall|i: int| 0 <= i < before.len() implies (#[trigger] before[i]).0
                != "transfer-encoding"@ by {
                assert(before[i] == headers[i]);
            }
        }
    }
}

/// Every header to inject is injected once, under its name and with its value, in order.
pub proof fn law_injected_headers(auth: Seq<(Seq<char>, Seq<char>)>, i: int)
    ensures
        injected_headers(auth).len() == auth.len(),
        0 <= i < auth.len() ==> injected_headers(auth)[i].0 == auth[i].0
            && vstd::utf8::decode_utf8(injected_headers(auth)[i].1) == auth[i].1,
{
    if 0 <= i < auth.len() {
        vstd::utf8::encode_utf8_decode_utf8(auth[i].1);
    }
}

/// The address at the upstream is its base, the path, and the query behind a question mark, if there
/// is one, each as it is.
pub proof fn law_upstream_address(base: Seq<char>, path: Seq<char>, query: Seq<char>)
    ensures
        upstream_url(base, path, None) == base + path,
        upstream_url(base, path, Some(query)) == (upstream_url(base, path, None)).push('?') + query,
{
    reveal_strlit("?");
    assert(upstream_url(base, path, Some(query)) =~= (base + path).push('?') + query);
}

/// The base address of an upstream is what was configured without the slashes at its end, however
/// many there are.
pub proof fn law_base_address(url: Seq<char>, slashes: nat)
    requires
        url.len() == 0 || url.last() != '/',
    ensures
        text::strip_trailing(url + text::repeated('/', slashes), '/') == url,
{
    text::law_strip(url, '/', slashes);
}

/// The seven common methods are sent as they are, and every other one as `GET`.
pub proof fn law_sent_method(method: Seq<char>)
    ensures
        ({
            let common = seq![
                "GET"@,
                "POST"@,
                "PUT"@,
                "DELETE"@,
                "PATCH"@,
                "HEAD"@,
                "OPTIONS"@,
            ];
            &&& common.contains(method) ==> sent_method(method) == method
            &&& !common.contains(method) ==> sent_method(method) == "GET"@
        }),
{
    let common = seq!["GET"@, "POST"@, "PUT"@, "DELETE"@, "PATCH"@, "HEAD"@, "OPTIONS"@];
    assert(common[0] == "GET"@ && common[1] == "POST"@ && common[2] == "PUT"@ && common[3]
        == "DELETE"@ && common[4] == "PATCH"@ && common[5] == "HEAD"@ && common[6] == "OPTIONS"@);
}

/// A path that is a URI is forwarded with its own path and query, and any other one as `/`.
pub proof fn law_target(path: Seq<char>, query: Option<Seq<char>>, target: Target)
    ensures
        target_of(Some((path, query))) == (path, query),
        target_of(None) == ("/"@, None::<Seq<char>>),
        target.deep_view().0 == target.path@,
        target.query matches Some(q) ==> target.deep_view().1 == Some(q@),
        target.query is None ==> target.deep_view().1 is None,
{
}

/// What a list of headers says: each name with its value, in order.
pub proof fn law_header_views(headers: Seq<(String, Vec<u8>)>, i: int)
    ensures
        header_views(headers).len() == headers.len(),
        0 <= i < headers.len() ==> header_views(headers)[i] == (headers[i].0@, headers[i].1@),
{
}

/// Headers are kept in their order: those of two lists, one after the other, are those of each.
pub proof fn law_header_order(a: Seq<(Seq<char>, Seq<u8>)>, b: Seq<(Seq<char>, Seq<u8>)>)
    ensures
        kept_request_headers(a + b) == kept_request_headers(a) + kept_request_headers(b),
        kept_response_headers(a + b) == kept_response_headers(a) + kept_response_headers(b),
    decreases b.len(),
{
    reveal(Seq::filter);
    if b.len() == 0 {
        assert(a + b =~= a);
        assert(kept_request_headers(b) =~= Seq::empty());
        assert(kept_response_headers(b) =~= Seq::empty());
        assert(kept_request_headers(a) + kept_request_headers(b) =~= kept_request_headers(a));
        assert(kept_response_headers(a) + kept_response_headers(b) =~= kept_response_headers(a));
    } else {
        law_header_order(a, b.drop_last());
        assert((a + b).drop_last() =~= a + b.drop_last());
        assert((a + b).last() == b.last());
        assert(kept_request_headers(a + b) =~= kept_request_headers(a) + kept_request_headers(b));
        assert(kept_response_headers(a + b) =~= kept_response_headers(a) + kept_response_headers(
            b,
        ));
    }
}

/// A request goes to the address of the upstream with the path and the query of its target; its
/// headers are those of the client that are not dropped, in order, and behind them the injected
/// ones, in order; its body is that of the client, where that is not empty.
pub proof fn law_forwarded_request(
    upstream: HttpUpstream,
    method: &str,
    target: &Target,
    headers: &Vec<(String, Vec<u8>)>,
    auth: &Vec<(String, String)>,
    body: Vec<u8>,
    r: UpstreamRequest,
    i: int,
)
    requires
        call_ensures(HttpUpstream::forward, (&upstream, method, target, headers, auth, body), r),
        0 <= i < auth@.len(),
    ensures
        r.method@ == sent_method(method@),
        r.url@.take(upstream.base_url@.len() as int) == upstream.base_url@,
        r.url@ == upstream.base_url@ + target.path@ + match target.query {
            Some(q) => seq!['?'] + q@,
            None => Seq::<char>::empty(),
        },
        r.headers@.len() == kept_request_headers(header_views(headers@)).len() + auth@.len(),
        header_views(r.headers@).take(kept_request_headers(header_views(headers@)).len() as int)
            == kept_request_headers(header_views(headers@)),
        r.headers@[r.headers@.len() - auth@.len() + i].0@ == auth@[i].0@,
        r.headers@[r.headers@.len() - auth@.len() + i].1@ == vstd::utf8::encode_utf8(auth@[i].1@),
        body@.len() == 0 <==> r.body is None,
        r.body is Some ==> r.body->0@ == body@,
{
    reveal_strlit("?");
    let kept = kept_request_headers(header_views(headers@));
    let injected = injected_headers(auth.deep_view());
    let sent = header_views(r.headers@);
    assert(injected.len() == auth@.len());
    assert(sent.len() == r.headers@.len());
    assert(sent.take(kept.len() as int) =~= kept);
    assert(sent[kept.len() + i] == injected[i]);
    assert(auth.deep_view()[i] == (auth@[i].0@, auth@[i].1@));
    assert(r.url@.take(upstream.base_url@.len() as int) =~= upstream.base_url@);
    match target.query {
        Some(q) => {
            assert(r.url@ =~= upstream.base_url@ + target.path@ + (seq!['?'] + q@));
        },
        None => {
            assert(r.url@ =~= upstream.base_url@ + target.path@ + Seq::<char>::empty());
        },
    }
}

/// Without injected headers exactly the client's headers that are not dropped are sent.
pub proof fn law_nothing_else_is_sent(
    upstream: HttpUpstream,
    method: &str,
    target: &Target,
    headers: &Vec<(String, Vec<u8>)>,
    auth: &Vec<(String, String)>,
    body: Vec<u8>,
    r: UpstreamRequest,
)
    requires
        call_ensures(HttpUpstream::forward, (&upstream, method, target, headers, auth, body), r),
        auth@.len() == 0,
    ensures
        header_views(r.headers@) == kept_request_headers(header_views(headers@)),
        body@.len() == 0 <==> r.body is None,
        r.body is Some ==> r.body->0@ == body@,
{
    let kept = kept_request_headers(header_views(headers@));
    assert(kept + injected_headers(auth.deep_view()) =~= kept);
}

/// An answer is streamed exactly when its content type holds that of an event stream.
pub proof fn law_event_stream(content_type: &str, r: bool, none: bool, before: Seq<char>, after: Seq<char>)
    requires
        call_ensures(is_event_stream, (Some(content_type),), r),
        call_ensures(is_event_stream, (None,), none),
    ensures
        !none,
        content_type@ == before + "text/event-stream"@ + after ==> r,
        r ==> exists|a: Seq<char>, b: Seq<char>|
            content_type@ == #[trigger] (a + "text/event-stream"@ + b),
{
    text::law_occurs(before, "text/event-stream"@, after, content_type@);
}

/// The answer of an upstream goes to the client with its headers but for the dropped ones.
pub proof fn law_response_headers(headers: &Vec<(String, Vec<u8>)>, r: Vec<(String, Vec<u8>)>)
    requires
        call_ensures(response_headers, (headers,), r),
    ensures
        header_views(r@) == header_views(headers@).filter(
            |h: (Seq<char>, Seq<u8>)| h.0 != "transfer-encoding"@,
        ),
{
    assert((|h: (Seq<char>, Seq<u8>)| !is_dropped_response_header(h.0)) =~= (|
        h: (Seq<char>, Seq<u8>),
    | h.0 != "transfer-encoding"@));
}

} // verus!
