//! One exchange on the query endpoint: what to do with a decoded body, and
//! which reply answers the outcome of the execution.

use vstd::prelude::*;
use crate::reply::{
    error_document, error_reply, json_content_type, json_reply, json_string_literal, HttpReply,
    STATUS_BAD_REQUEST, STATUS_EXECUTION_FAILED, STATUS_OK,
};

verus! {

/// A JSON value of `serde_json`, carried through unread.
#[verifier::external_type_specification]
#[verifier::external_body]
pub struct ExJsonValue(serde_json::Value);

/// The text of the JSON document that a value holds, as `serde_json` writes
/// it: compact, the members of an object in the order in which the value
/// keeps them.
pub uninterp spec fn json_text(value: serde_json::Value) -> Seq<char>;

/// Calls `serde_json::Value::to_string`. Nothing is proved of it: the
/// contract only gives the result its name, `json_text`, which is a function
/// of the value alone.
#[verifier::external_body]
fn write_json(value: &serde_json::Value) -> (text: String)
    ensures
        text@ == json_text(*value),
{
    value.to_string()
}

/// A decoded request body.
#[derive(Debug, Clone, PartialEq, Eq)]
pub struct GraphqlRequest {
    pub query: String,
    pub variables: Option<serde_json::Value>,
}

/// Why a request was answered without being executed.
#[derive(Debug, Clone, Copy, PartialEq, Eq, Structural)]
pub enum RequestError {
    MalformedBody,
}

impl RequestError {
    /// The message that the failure reply carries.
    pub open spec fn spec_message(self) -> Seq<char> {
        "malformed request body"@
    }

    /// The message that the failure reply carries.
    pub fn message(&self) -> (text: String)
        ensures
            text@ == self.spec_message(),
    {
        "malformed request body".to_owned()
    }
}

/// What the server does next with a request.
#[derive(Debug, Clone, PartialEq, Eq)]
pub enum RequestStep {
    /// Hand the query and its variables to the engine, once.
    Execute { query: String, variables: Option<serde_json::Value> },
    /// Answer at once, without touching the engine.
    Respond { error: RequestError, reply: HttpReply },
}

/// The reply to a body that could not be decoded.
pub open spec fn is_malformed_body_reply(reply: HttpReply) -> bool {
    &&& reply.status == STATUS_BAD_REQUEST
    &&& reply.content_type@ == json_content_type()
    &&& reply.body@ == error_document(
        json_string_literal(RequestError::MalformedBody.spec_message()),
    )
}

/// Decides what happens to a request from the result of decoding its body.
/// A body that did not decode is answered with a client error and never
/// reaches the engine; a decoded one is executed with its query and
/// variables unchanged.
pub fn begin(decoded: Option<GraphqlRequest>) -> (step: RequestStep)
    ensures
        match decoded {
            Some(request) => step == (RequestStep::Execute {
                query: request.query,
                variables: request.variables,
            }),
            None => step is Respond && step->error == RequestError::MalformedBody
                && is_malformed_body_reply(step->reply),
        },
{
    match decoded {
        Some(request) => RequestStep::Execute {
            query: request.query,
            variables: request.variables,
        },
        None => {
            let error = RequestError::MalformedBody;
            let message = error.message();
            RequestStep::Respond {
                error,
                reply: error_reply(STATUS_BAD_REQUEST, message.as_str()),
            }
        },
    }
}

/// Why an execution gave no data.
#[derive(Debug, Clone, PartialEq, Eq)]
pub enum ExecutionError {
    /// The query does not fit the data model.
    ValidationFailed { message: String },
    /// The query was run and failed, or no connection could be had for it.
    RuntimeFailure { message: String },
}

impl ExecutionError {
    /// The message that the failure reply carries.
    pub open spec fn spec_message(self) -> Seq<char> {
        match self {
            ExecutionError::ValidationFailed { message } => message@,
            ExecutionError::RuntimeFailure { message } => message@,
        }
    }

    /// The message that the failure reply carries.
    pub fn message(&self) -> (text: &str)
        ensures
            text@ == self.spec_message(),
    {
        match self {
            ExecutionError::ValidationFailed { message } => message.as_str(),
            ExecutionError::RuntimeFailure { message } => message.as_str(),
        }
    }
}

/// The reply that answers an execution: the text of its document with
/// status 200 where it succeeded, and a server error with the failure's
/// message in an `errors` array where it did not, whatever the kind of
/// failure.
pub open spec fn is_execution_reply(
    outcome: Result<serde_json::Value, ExecutionError>,
    reply: HttpReply,
) -> bool {
    &&& reply.content_type@ == json_content_type()
    &&& match outcome {
        Ok(document) => reply.status == STATUS_OK && reply.body@ == json_text(document),
        Err(error) => reply.status == STATUS_EXECUTION_FAILED && reply.body@ == error_document(
            json_string_literal(error.spec_message()),
        ),
    }
}

/// Marshals the outcome of one execution into the reply. A failed execution
/// is answered at once: nothing is tried again.
pub fn finish(outcome: Result<serde_json::Value, ExecutionError>) -> (reply: HttpReply)
    ensures
        is_execution_reply(outcome, reply),
{
    match outcome {
        Ok(document) => json_reply(STATUS_OK, write_json(&document)),
        Err(error) => error_reply(STATUS_EXECUTION_FAILED, error.message()),
    }
}

/// The reply to a request depends on the outcome of that request alone:
/// two replies to one outcome agree in status, content type and body, so
/// nothing of another request can show in either.
pub proof fn lemma_reply_follows_its_own_outcome(
    outcome: Result<serde_json::Value, ExecutionError>,
    first: HttpReply,
    second: HttpReply,
)
    requires
        is_execution_reply(outcome, first),
        is_execution_reply(outcome, second),
    ensures
        first.status == second.status,
        first.content_type@ == second.content_type@,
        first.body@ == second.body@,
{
}

/// A reply tells success from failure by its status: no failure is answered
/// with the status of a success, and no success with that of a failure.
pub proof fn lemma_status_tells_outcome(
    outcome: Result<serde_json::Value, ExecutionError>,
    reply: HttpReply,
)
    requires
        is_execution_reply(outcome, reply),
    ensures
        outcome is Ok <==> reply.status == STATUS_OK,
        outcome is Err <==> reply.status == STATUS_EXECUTION_FAILED,
{
}

} // verus!
