//! One completion round: append the outgoing user turn, build the request
//! body for the remote endpoint, and fold the returned candidate reply back
//! into the conversation.

use vstd::prelude::*;

use crate::codec::append_encoded_messages;
use crate::codec::enc_msgs;
use crate::convo::ConversationState;
use crate::convo::Message;
use crate::convo::MsgV;
use crate::convo::Role;
use crate::convo::StateV;
use crate::convo::is_reasoning_model;
use crate::convo::model_is_reasoning;
use crate::json::append_escaped;
use crate::json::esc;

verus! {

/// Fatal failures of a completion call's result.
#[derive(Clone, Copy, Debug, PartialEq, Eq, Structural)]
pub enum ApiError {
    /// The endpoint returned no candidate reply at all.
    EmptyResponse,
    /// The endpoint returned a candidate outside the expected shape.
    MalformedResponse,
}

/// The decoded response of the completion endpoint: the candidate replies,
/// in the order returned.
pub struct CompletionResponse {
    pub choices: Vec<Message>,
}

/// The request body sent to the completion endpoint: the full ordered
/// message list, the model identifier and the caller identity tag; for
/// non-reasoning models also the fixed token cap and sampling temperature,
/// which reasoning models reject.
pub open spec fn request_body_spec(v: StateV, user: Seq<char>) -> Seq<char> {
    if is_reasoning_model(v.model) {
        "{\"messages\":["@ + enc_msgs(v.messages) + "],\"model\":\""@ + esc(v.model)
            + "\",\"user\":\""@ + esc(user) + "\"}"@
    } else {
        "{\"max_tokens\":2048,\"messages\":["@ + enc_msgs(v.messages) + "],\"model\":\""@ + esc(
            v.model,
        ) + "\",\"temperature\":0.6,\"user\":\""@ + esc(user) + "\"}"@
    }
}

/// Serializes the request body for the session as it stands.
pub fn build_request_body(state: &ConversationState, user: &str) -> (r: String)
    ensures
        r@ == request_body_spec(state@, user@),
{
    if model_is_reasoning(state.model.as_str()) {
        let mut out = String::from_str("{\"messages\":[");
        append_encoded_messages(&mut out, &state.messages);
        out.append("],\"model\":\"");
        append_escaped(&mut out, state.model.as_str());
        out.append("\",\"user\":\"");
        append_escaped(&mut out, user);
        out.append("\"}");
        proof {
            assert(out@ =~= request_body_spec(state@, user@));
        }
        out
    } else {
        let mut out = String::from_str("{\"max_tokens\":2048,\"messages\":[");
        append_encoded_messages(&mut out, &state.messages);
        out.append("],\"model\":\"");
        append_escaped(&mut out, state.model.as_str());
        out.append("\",\"temperature\":0.6,\"user\":\"");
        append_escaped(&mut out, user);
        out.append("\"}");
        proof {
            assert(out@ =~= request_body_spec(state@, user@));
        }
        out
    }
}

/// Appends the outgoing user turn and returns the request body to send:
/// the body reflects the session with that turn already recorded.
pub fn begin_request(state: &mut ConversationState, input: String, user: &str) -> (body: String)
    requires
        old(state).wf(),
        input@.len() > 0,
    ensures
        final(state)@.model == old(state)@.model,
        final(state)@.messages == old(state)@.messages.push(
            MsgV { role: Role::User, content: input@ },
        ),
        final(state).wf(),
        body@ == request_body_spec(final(state)@, user@),
{
    state.push_message(Message { role: Role::User, content: input });
    build_request_body(state, user)
}

/// Takes the first candidate of a decoded response and appends it to the
/// session; fails without touching the session when no candidate is there
/// or the first one is empty.
pub fn accept_response(state: &mut ConversationState, response: &CompletionResponse) -> (r: Result<
    Message,
    ApiError,
>)
    requires
        old(state).wf(),
    ensures
        match r {
            Ok(m) => {
                &&& response.choices@.len() > 0
                &&& m@ == response.choices@[0]@
                &&& m@.content.len() > 0
                &&& final(state)@.model == old(state)@.model
                &&& final(state)@.messages == old(state)@.messages.push(m@)
                &&& final(state).wf()
            },
            Err(ApiError::EmptyResponse) => response.choices@.len() == 0 && *final(state)
                == *old(state),
            Err(ApiError::MalformedResponse) => {
                &&& response.choices@.len() > 0
                &&& response.choices@[0]@.content.len() == 0
                &&& *final(state) == *old(state)
            },
        },
{
    if response.choices.len() == 0 {
        return Err(ApiError::EmptyResponse);
    }
    let first = &response.choices[0];
    if first.content.as_str().unicode_len() == 0 {
        return Err(ApiError::MalformedResponse);
    }
    let kept = first.duplicate();
    let returned = first.duplicate();
    state.push_message(kept);
    Ok(returned)
}

/// Relies on `whoami::username`: the name the platform reports for the
/// invoking user, when it reports one.
#[verifier::external_body]
fn username_lookup() -> (r: Option<String>) {
    whoami::username().ok()
}

/// The caller identity tag sent with each request: the platform's username,
/// or a fixed placeholder where none is reported.
pub fn user_tag() -> (r: String) {
    match username_lookup() {
        Some(u) => u,
        None => String::from_str("unknown"),
    }
}

} // verus!
