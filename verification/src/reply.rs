//! The HTTP replies that the gateway sends.

use vstd::prelude::*;
use vstd::string::StringExecFns;

verus! {

/// Status of a reply to a request that was executed.
pub const STATUS_OK: u16 = 200;

/// Status of a reply to a request whose body could not be decoded.
pub const STATUS_BAD_REQUEST: u16 = 400;

/// Status of a reply to a request whose execution failed.
pub const STATUS_EXECUTION_FAILED: u16 = 500;

/// What the server sends back: a status, a content type and a body.
#[derive(Debug, Clone, PartialEq, Eq)]
pub struct HttpReply {
    pub status: u16,
    pub content_type: String,
    pub body: String,
}

/// The content type of every reply of the query endpoint.
pub open spec fn json_content_type() -> Seq<char> {
    "application/json"@
}

/// The content type of the exploration page.
pub open spec fn html_content_type() -> Seq<char> {
    "text/html; charset=utf-8"@
}

/// The text that stands for `text` as a string in a JSON document, quotes
/// included, as `serde_json` writes it.
pub uninterp spec fn json_string_literal(text: Seq<char>) -> Seq<char>;

/// Calls `serde_json::Value::to_string` on a JSON string value that holds
/// `text`. Nothing is proved of it: the contract only gives the result its
/// name, `json_string_literal`, which is a function of the text alone.
#[verifier::external_body]
fn quote_json(text: &str) -> (quoted: String)
    ensures
        quoted@ == json_string_literal(text@),
{
    serde_json::Value::String(text.to_owned()).to_string()
}

/// The body of a failure reply: one JSON object whose `errors` array holds a
/// single entry with the quoted message.
pub open spec fn error_document(quoted_message: Seq<char>) -> Seq<char> {
    "{\"errors\":[{\"message\":"@ + quoted_message + "}]}"@
}

/// Builds the body of a failure reply around a message that is already a
/// JSON string literal.
pub fn error_body(quoted_message: &str) -> (body: String)
    ensures
        body@ == error_document(quoted_message@),
{
    let mut body: String = "{\"errors\":[{\"message\":".to_owned();
    body.append(quoted_message);
    body.append("}]}");
    body
}

/// A JSON reply with the given status and body.
pub fn json_reply(status: u16, body: String) -> (reply: HttpReply)
    ensures
        reply.status == status,
        reply.content_type@ == json_content_type(),
        reply.body@ == body@,
{
    HttpReply { status, content_type: "application/json".to_owned(), body }
}

/// A failure reply: the given status, and a JSON body that carries `message`
/// in its `errors` array.
pub fn error_reply(status: u16, message: &str) -> (reply: HttpReply)
    ensures
        reply.status == status,
        reply.content_type@ == json_content_type(),
        reply.body@ == error_document(json_string_literal(message@)),
{
    let quoted = quote_json(message);
    json_reply(status, error_body(quoted.as_str()))
}

} // verus!
