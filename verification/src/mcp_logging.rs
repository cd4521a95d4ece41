//! What is logged of the MCP traffic of an upstream.
use vstd::prelude::*;
use vstd::string::*;
use crate::json;
use crate::json::JsonTree;
use crate::text;

verus! {

/// The longest payload that is logged whole, in bytes.
pub const MAX_LOG_CHARS: usize = 16384;

/// The way that a logged message takes.
#[derive(Debug, Clone, Copy, PartialEq, Eq, Structural)]
pub enum Direction {
    Request,
    Response,
}

/// One entry of the traffic log.
#[derive(Debug)]
pub struct LogRecord {
    pub upstream: String,
    pub transport: String,
    pub direction: Direction,
    pub status: Option<u16>,
    pub content_type: Option<String>,
    pub payload: String,
}

/// What a text is cut to: nothing is cut from a text of at most `MAX_LOG_CHARS` bytes; a longer
/// one keeps that many, and says how many were cut.
pub open spec fn truncated(text: Seq<char>) -> Seq<char> {
    let bytes = vstd::utf8::encode_utf8(text);
    if bytes.len() <= MAX_LOG_CHARS {
        text
    } else {
        vstd::utf8::decode_utf8(bytes.take(MAX_LOG_CHARS as int)) + "\n... <truncated "@
            + text::decimal((bytes.len() - MAX_LOG_CHARS) as nat) + " chars>"@
    }
}

/// A cut after `MAX_LOG_CHARS` bytes would not go through a character.
pub open spec fn can_truncate(text: Seq<char>) -> bool {
    let bytes = vstd::utf8::encode_utf8(text);
    bytes.len() <= MAX_LOG_CHARS || vstd::utf8::is_char_boundary(bytes, MAX_LOG_CHARS as int)
}

/// Cuts a text to `MAX_LOG_CHARS` bytes and says how many were cut.
pub fn truncate(text: String) -> (r: String)
    requires
        can_truncate(text@),
    ensures
        r@ == truncated(text@),
{
    let whole = text.as_str();
    let total: usize = whole.as_bytes().len();
    if total <= MAX_LOG_CHARS {
        return text;
    }
    let omitted: usize = total - MAX_LOG_CHARS;
    let (kept, _) = whole.split_at(MAX_LOG_CHARS);
    proof {
        vstd::utf8::encode_utf8_decode_utf8(kept@);
        assert(vstd::utf8::encode_utf8(text@).take(MAX_LOG_CHARS as int) =~= kept.spec_bytes());
    }
    kept.to_owned().concat("\n... <truncated ").concat(
        text::decimal_text(omitted as u64).as_str(),
    ).concat(" chars>")
}

/// What a payload is logged as before it is cut: JSON on several lines, or the text as it is.
pub open spec fn payload_text(payload: Seq<u8>, msg: Option<JsonTree>) -> Seq<char> {
    match msg {
        Some(m) => json::json_pretty(m),
        None => text::utf8_lossy(payload),
    }
}

/// What a payload is logged as, where `msg` is what it reads as.
pub open spec fn logged_payload(payload: Seq<u8>, msg: Option<JsonTree>) -> Seq<char> {
    if payload.len() == 0 {
        "<empty>"@
    } else {
        truncated(payload_text(payload, msg))
    }
}

/// A payload that can be logged: cutting it does not go through a character.
pub open spec fn can_log(payload: Seq<u8>) -> bool {
    payload.len() == 0 || can_truncate(payload_text(payload, json::json_parsed(payload)))
}

/// The text of a payload before it is cut.
fn payload_text_of(payload: &[u8]) -> (r: String)
    ensures
        r@ == payload_text(payload@, json::json_parsed(payload@)),
{
    match json::parse_json(payload) {
        Some(msg) => msg.to_pretty_text(),
        None => text::lossy_text(payload),
    }
}

/// What a payload is logged as.
pub fn format_payload(payload: &[u8]) -> (r: String)
    requires
        can_log(payload@),
    ensures
        r@ == logged_payload(payload@, json::json_parsed(payload@)),
{
    if payload.len() == 0 {
        return "<empty>".to_owned();
    }
    truncate(payload_text_of(payload))
}

/// Whether a payload can be logged.
pub fn is_loggable(payload: &[u8]) -> (r: bool)
    ensures
        r == can_log(payload@),
{
    if payload.len() == 0 {
        return true;
    }
    let whole = payload_text_of(payload);
    whole.as_str().as_bytes().len() <= MAX_LOG_CHARS || whole.as_str().is_char_boundary(
        MAX_LOG_CHARS,
    )
}

/// The entry for a request to an upstream; `None` where the payload cannot be logged.
pub fn log_request(upstream: &str, transport: &str, payload: &[u8]) -> (r: Option<LogRecord>)
    ensures
        r is Some <==> can_log(payload@),
        r matches Some(record) ==> {
            &&& record.upstream@ == upstream@
            &&& record.transport@ == transport@
            &&& record.direction == Direction::Request
            &&& record.status is None
            &&& record.content_type is None
            &&& record.payload@ == logged_payload(payload@, json::json_parsed(payload@))
        },
{
    if !is_loggable(payload) {
        return None;
    }
    Some(
        LogRecord {
            upstream: upstream.to_owned(),
            transport: transport.to_owned(),
            direction: Direction::Request,
            status: None,
            content_type: None,
            payload: format_payload(payload),
        },
    )
}

/// The entry for an answer of an upstream; `None` where the payload cannot be logged.
pub fn log_response(upstream: &str, transport: &str, status: Option<u16>, payload: &[u8]) -> (r:
    Option<LogRecord>)
    ensures
        r is Some <==> can_log(payload@),
        r matches Some(record) ==> {
            &&& record.upstream@ == upstream@
            &&& record.transport@ == transport@
            &&& record.direction == Direction::Response
            &&& record.status == status
            &&& record.content_type is None
            &&& record.payload@ == logged_payload(payload@, json::json_parsed(payload@))
        },
{
    if !is_loggable(payload) {
        return None;
    }
    Some(
        LogRecord {
            upstream: upstream.to_owned(),
            transport: transport.to_owned(),
            direction: Direction::Response,
            status,
            content_type: None,
            payload: format_payload(payload),
        },
    )
}

/// The entry for an answer whose body is a stream.
pub fn log_streaming_response(
    upstream: &str,
    transport: &str,
    status: u16,
    content_type: Option<&str>,
) -> (r: LogRecord)
    ensures
        r.upstream@ == upstream@,
        r.transport@ == transport@,
        r.direction == Direction::Response,
        r.status == Some(status),
        r.content_type.deep_view() == Some(
            match content_type {
                Some(ct) => ct@,
                None => "unknown"@,
            },
        ),
        r.payload@ == "<streaming response body not captured>"@,
{
    LogRecord {
        upstream: upstream.to_owned(),
        transport: transport.to_owned(),
        direction: Direction::Response,
        status: Some(status),
        content_type: Some(
            match content_type {
                Some(ct) => ct.to_owned(),
                None => "unknown".to_owned(),
            },
        ),
        payload: "<streaming response body not captured>".to_owned(),
    }
}

/// The entry for a notification that was forwarded.
pub fn log_notification_ack(upstream: &str, transport: &str) -> (r: LogRecord)
    ensures
        r.upstream@ == upstream@,
        r.transport@ == transport@,
        r.direction == Direction::Response,
        r.status is None,
        r.content_type is None,
        r.payload@ == "<notification forwarded; no response expected>"@,
{
    LogRecord {
        upstream: upstream.to_owned(),
        transport: transport.to_owned(),
        direction: Direction::Response,
        status: None,
        content_type: None,
        payload: "<notification forwarded; no response expected>".to_owned(),
    }
}

/// The bytes of two texts together are those of each.
proof fn lemma_encode_together(a: Seq<char>, b: Seq<char>)
    ensures
        vstd::utf8::encode_utf8(a + b) == vstd::utf8::encode_utf8(a) + vstd::utf8::encode_utf8(b),
    decreases a.len(),
{
    let bytes = vstd::utf8::encode_utf8(b);
    if a.len() == 0 {
        assert(a + b =~= b);
        assert(vstd::utf8::encode_utf8(a) =~= Seq::empty());
        assert(vstd::utf8::encode_utf8(a) + bytes =~= bytes);
    } else {
        lemma_encode_together(a.drop_first(), b);
        assert((a + b).drop_first() =~= a.drop_first() + b);
        assert((a + b)[0] == a[0]);
        assert(vstd::utf8::encode_utf8(a + b) =~= vstd::utf8::encode_utf8(a) + bytes);
    }
}

/// A text of at most 16384 bytes is logged whole. Of a longer one the first 16384 bytes are logged,
/// and how many were cut; it can be logged where a character ends there.
pub proof fn law_truncated(kept: Seq<char>, rest: Seq<char>, short: Seq<char>)
    requires
        vstd::utf8::encode_utf8(kept).len() == 16384,
        rest.len() > 0,
        vstd::utf8::encode_utf8(short).len() <= 16384,
    ensures
        truncated(short) == short,
        can_truncate(short),
        can_truncate(kept + rest),
        truncated(kept + rest).take(kept.len() as int) == kept,
        truncated(kept + rest).skip(kept.len() as int).take(16) == "\n... <truncated "@,
        truncated(kept + rest).skip(truncated(kept + rest).len() - 7) == " chars>"@,
        text::number_of(
            truncated(kept + rest).subrange(
                kept.len() as int + 16,
                truncated(kept + rest).len() - 7,
            ),
        ) == vstd::utf8::encode_utf8(rest).len(),
{
    reveal_strlit("\n... <truncated ");
    reveal_strlit(" chars>");
    let whole = kept + rest;
    let bytes = vstd::utf8::encode_utf8(whole);
    let first = vstd::utf8::encode_utf8(kept);
    let last = vstd::utf8::encode_utf8(rest);
    lemma_encode_together(kept, rest);
    assert(last.len() > 0) by {
        vstd::utf8::encode_utf8_decode_utf8(rest);
        if last.len() == 0 {
            assert(last =~= Seq::empty());
            assert(vstd::utf8::decode_utf8(last).len() == 0);
        }
    }
    assert(bytes.take(16384) =~= first);
    vstd::utf8::encode_utf8_decode_utf8(kept);
    vstd::utf8::encode_utf8_valid_utf8(whole);
    vstd::utf8::encode_utf8_valid_utf8(kept);
    vstd::utf8::encode_utf8_valid_utf8(rest);
    let cut = truncated(whole);
    let digits = text::decimal((bytes.len() - 16384) as nat);
    text::law_decimal((bytes.len() - 16384) as nat);
    assert(cut == kept + "\n... <truncated "@ + digits + " chars>"@);
    assert(cut.take(kept.len() as int) =~= kept);
    assert(cut.skip(kept.len() as int).take(16) =~= "\n... <truncated "@);
    assert(cut.skip(cut.len() - 7) =~= " chars>"@);
    assert(cut.subrange(kept.len() as int + 16, cut.len() - 7) =~= digits);
    assert(vstd::utf8::is_char_boundary(bytes, 16384)) by {
        assert(bytes.skip(16384) =~= last);
        lemma_boundary(kept, rest);
    }
}

/// The end of a text is a boundary in the bytes of what starts with it.
proof fn lemma_boundary(a: Seq<char>, b: Seq<char>)
    ensures
        vstd::utf8::is_char_boundary(
            vstd::utf8::encode_utf8(a + b),
            vstd::utf8::encode_utf8(a).len() as int,
        ),
    decreases a.len(),
{
    let whole = a + b;
    vstd::utf8::encode_utf8_valid_utf8(whole);
    if a.len() > 0 {
        let rest = a.drop_first();
        lemma_boundary(rest, b);
        vstd::utf8::encode_utf8_first_scalar(whole);
        vstd::utf8::encode_utf8_first_scalar(a);
        lemma_encode_together(a, b);
        assert(whole.drop_first() =~= rest + b);
        assert(vstd::utf8::pop_first_scalar(vstd::utf8::encode_utf8(whole))
            =~= vstd::utf8::encode_utf8(rest + b));
    }
}

/// A payload that reads as JSON is logged as JSON on several lines, any other as its text, and an
/// empty one is named.
pub proof fn law_logged_payload(payload: Seq<u8>, msg: JsonTree)
    ensures
        payload.len() == 0 ==> logged_payload(payload, None) == "<empty>"@ && logged_payload(
            payload,
            Some(msg),
        ) == "<empty>"@,
        payload.len() > 0 && vstd::utf8::encode_utf8(json::json_pretty(msg)).len() <= 16384
            ==> logged_payload(payload, Some(msg)) == json::json_pretty(msg),
        payload.len() > 0 && vstd::utf8::encode_utf8(text::utf8_lossy(payload)).len() <= 16384
            ==> logged_payload(payload, None) == text::utf8_lossy(payload),
        payload.len() == 0 ==> can_log(payload),
        json::json_parsed(payload) == Some(msg) && vstd::utf8::encode_utf8(
            json::json_pretty(msg),
        ).len() <= 16384 ==> can_log(payload),
        json::json_parsed(payload) is None && vstd::utf8::encode_utf8(
            text::utf8_lossy(payload),
        ).len() <= 16384 ==> can_log(payload),
{
}

/// A request and an answer with the same payload are logged with the same text, and told apart by
/// their direction; an answer also with its status.
pub proof fn law_two_directions(
    upstream: &str,
    transport: &str,
    status: Option<u16>,
    payload: &[u8],
    request: Option<LogRecord>,
    response: Option<LogRecord>,
)
    requires
        call_ensures(log_request, (upstream, transport, payload), request),
        call_ensures(log_response, (upstream, transport, status, payload), response),
    ensures
        request is Some == response is Some,
        request is Some ==> request->0.payload@ == response->0.payload@ && request->0.upstream@
            == upstream@ && response->0.upstream@ == upstream@ && request->0.transport@
            == transport@ && response->0.transport@ == transport@ && request->0.direction
            is Request && response->0.direction is Response && request->0.status is None
            && response->0.status == status,
{
}

} // verus!
