//! The conversation data model: messages, roles, and the per-session state,
//! with the priming rule for fresh sessions.

use vstd::prelude::*;

use crate::text::contains_pat;
use crate::text::contains_str;

verus! {

/// Role of one conversational turn.
#[derive(Clone, Copy, Debug, PartialEq, Eq, Structural)]
pub enum Role {
    System,
    User,
    Assistant,
}

/// Mathematical value of one message.
#[verifier::ext_equal]
pub struct MsgV {
    pub role: Role,
    pub content: Seq<char>,
}

/// One conversational turn.
#[derive(Clone, Debug, PartialEq)]
pub struct Message {
    pub role: Role,
    pub content: String,
}

impl View for Message {
    type V = MsgV;

    open spec fn view(&self) -> MsgV {
        MsgV { role: self.role, content: self.content@ }
    }
}

impl Message {
    /// A field-for-field copy.
    pub fn duplicate(&self) -> (r: Message)
        ensures
            r@ == self@,
    {
        Message { role: self.role, content: self.content.clone() }
    }
}

/// Mathematical value of one session.
#[verifier::ext_equal]
pub struct StateV {
    pub model: Seq<char>,
    pub messages: Seq<MsgV>,
}

/// One session: the target model and the chronological message sequence.
#[derive(Clone, Debug, PartialEq)]
pub struct ConversationState {
    pub model: String,
    pub messages: Vec<Message>,
}

impl View for ConversationState {
    type V = StateV;

    open spec fn view(&self) -> StateV {
        StateV {
            model: self.model@,
            messages: self.messages@.map(|i: int, m: Message| m@),
        }
    }
}

/// Marker that places a model in the reasoning family, which takes its
/// priming message under the `user` role and rejects sampling parameters.
pub open spec fn reasoning_marker() -> Seq<char> {
    "o1-"@
}

/// A model identifier names a reasoning-family model when it holds the marker.
pub open spec fn is_reasoning_model(model: Seq<char>) -> bool {
    contains_pat(model, reasoning_marker())
}

/// Executable form of `is_reasoning_model`.
pub fn model_is_reasoning(model: &str) -> (r: bool)
    ensures
        r == is_reasoning_model(model@),
{
    contains_str(model, "o1-")
}

/// The behavior instructions every fresh session opens with.
pub open spec fn priming_text() -> Seq<char> {
    "You are ChatConcise, a very advanced LLM designed for experienced users. As ChatConcise you oblige to adhere to the following directives UNLESS overridden by the user:\nBe concise, proactive, helpful and efficient. Do not say anything more than what needed, but also, DON'T BE LAZY. Provide ONLY code when an implementation is needed. DO NOT USE MARKDOWN."@
}

/// The role the priming message takes for `model`: reasoning-family models
/// receive it as a user turn, all others as a system turn.
pub open spec fn priming_role(model: Seq<char>) -> Role {
    if is_reasoning_model(model) {
        Role::User
    } else {
        Role::System
    }
}

/// The wire text of a role.
pub open spec fn role_text(r: Role) -> Seq<char> {
    match r {
        Role::System => "system"@,
        Role::User => "user"@,
        Role::Assistant => "assistant"@,
    }
}

/// Executable form of `role_text`.
pub fn role_str(r: Role) -> (s: &'static str)
    ensures
        s@ == role_text(r),
{
    match r {
        Role::System => "system",
        Role::User => "user",
        Role::Assistant => "assistant",
    }
}

/// Structural invariant of a session value: the sequence is never empty once
/// initialized, and no recorded message has empty content.
pub open spec fn state_wf(v: StateV) -> bool {
    &&& v.messages.len() >= 1
    &&& forall|i: int| 0 <= i < v.messages.len() ==> #[trigger] v.messages[i].content.len() > 0
}

impl ConversationState {
    /// Structural invariant: the sequence is never empty once initialized,
    /// and no recorded message has empty content.
    pub open spec fn wf(self) -> bool {
        state_wf(self@)
    }

    /// Executable check of the structural invariant.
    pub fn check_wf(&self) -> (r: bool)
        ensures
            r == self.wf(),
    {
        if self.messages.len() == 0 {
            return false;
        }
        let mut i: usize = 0;
        while i < self.messages.len()
            invariant
                i <= self@.messages.len(),
                self@.messages.len() == self.messages.len(),
                forall|j: int| 0 <= j < i ==> #[trigger] self@.messages[j].content.len() > 0,
            decreases self.messages.len() - i,
        {
            if self.messages[i].content.as_str().unicode_len() == 0 {
                assert(self@.messages[i as int].content.len() == 0);
                return false;
            }
            i += 1;
        }
        true
    }

    /// Builds a fresh state holding exactly the priming message, whose role
    /// follows the model-family rule.
    pub fn initialize(model: String) -> (r: ConversationState)
        ensures
            r@.model == model@,
            r@.messages.len() == 1,
            r@.messages[0].role == priming_role(model@),
            r@.messages[0].content == priming_text(),
            r.wf(),
    {
        let role = if model_is_reasoning(model.as_str()) {
            Role::User
        } else {
            Role::System
        };
        let priming = Message {
            role,
            content: String::from_str(
                "You are ChatConcise, a very advanced LLM designed for experienced users. As ChatConcise you oblige to adhere to the following directives UNLESS overridden by the user:\nBe concise, proactive, helpful and efficient. Do not say anything more than what needed, but also, DON'T BE LAZY. Provide ONLY code when an implementation is needed. DO NOT USE MARKDOWN.",
            ),
        };
        proof {
            reveal_strlit(
                "You are ChatConcise, a very advanced LLM designed for experienced users. As ChatConcise you oblige to adhere to the following directives UNLESS overridden by the user:\nBe concise, proactive, helpful and efficient. Do not say anything more than what needed, but also, DON'T BE LAZY. Provide ONLY code when an implementation is needed. DO NOT USE MARKDOWN.",
            );
        }
        let mut messages: Vec<Message> = Vec::new();
        messages.push(priming);
        let r = ConversationState { model, messages };
        proof {
            assert(r@.messages =~= seq![r@.messages[0]]);
        }
        r
    }

    /// Appends one message; normal operation only ever appends.
    pub fn push_message(&mut self, m: Message)
        requires
            old(self).wf(),
            m@.content.len() > 0,
        ensures
            final(self)@.model == old(self)@.model,
            final(self)@.messages == old(self)@.messages.push(m@),
            final(self).wf(),
    {
        self.messages.push(m);
        proof {
            assert(final(self)@.messages =~= old(self)@.messages.push(m@));
        }
    }

    /// The most recent message.
    pub fn last_message(&self) -> (r: &Message)
        requires
            self.wf(),
        ensures
            r@ == self@.messages.last(),
    {
        &self.messages[self.messages.len() - 1]
    }
}

/// Appending the user turn and then the assistant turn grows the message
/// sequence by exactly those two entries, in that order, and disturbs no
/// earlier entry.
pub proof fn lemma_request_append_ordering(
    before: Seq<MsgV>,
    mid: Seq<MsgV>,
    after: Seq<MsgV>,
    user_turn: MsgV,
    assistant_turn: MsgV,
)
    requires
        mid == before.push(user_turn),
        after == mid.push(assistant_turn),
    ensures
        after.len() == before.len() + 2,
        after[after.len() - 2] == user_turn,
        after[after.len() - 1] == assistant_turn,
        forall|i: int| 0 <= i < before.len() ==> after[i] == before[i],
{
}

} // verus!
