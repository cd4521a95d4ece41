//! The answers that the proxy itself gives to a client.
use vstd::prelude::*;
use vstd::string::*;
use crate::json;
use crate::json::{Json, JsonTree};

verus! {

/// The body of an answer.
#[derive(Debug)]
pub enum ReplyBody {
    /// Plain text.
    Text(String),
    /// The text of a JSON value.
    Json(String),
}

/// An answer that the proxy itself gives to a client.
#[derive(Debug)]
pub struct Reply {
    pub status: u16,
    pub body: ReplyBody,
}

impl Reply {
    /// The answer has the status `status` and the plain text `words`.
    pub open spec fn says(self, status: u16, words: Seq<char>) -> bool {
        &&& self.status == status
        &&& self.body matches ReplyBody::Text(t) && t@ == words
    }

    /// The answer has the status `status`, and its body is the text of the JSON value `value`.
    pub open spec fn carries(self, status: u16, value: JsonTree) -> bool {
        &&& self.status == status
        &&& self.body matches ReplyBody::Json(t) && t@ == json::json_text(value)
    }

    /// An answer in plain text.
    pub fn text(status: u16, words: &str) -> (r: Reply)
        ensures
            r.says(status, words@),
    {
        Reply { status, body: ReplyBody::Text(words.to_owned()) }
    }

    /// An answer in JSON.
    pub fn json(status: u16, value: &Json) -> (r: Reply)
        ensures
            r.carries(status, value.tree()),
    {
        Reply { status, body: ReplyBody::Json(value.to_text()) }
    }
}

/// An answer that says words is their plain text, and one that carries a value is the JSON text of
/// it, each with its status.
pub proof fn law_reply(reply: Reply, status: u16, words: Seq<char>, value: JsonTree)
    ensures
        reply.says(status, words) ==> reply.status == status && reply.body is Text && reply.body->Text_0@
            == words,
        reply.carries(status, value) ==> reply.status == status && reply.body is Json
            && reply.body->Json_0@ == json::json_text(value),
{
}

} // verus!
