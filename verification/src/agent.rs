//! The agent loop's transition rules: from the current conversation, decide
//! whether to stop, to request a directive, or to put a command before the
//! user for approval. The surrounding process performs the chosen action and
//! feeds the observed outcome back as the next turn.

use vstd::prelude::*;

use crate::convo::ConversationState;
use crate::prompts::directive_prompt;
use crate::prompts::directive_prompt_spec;
use crate::reply::analyze_reply;
use crate::reply::directive_of;
use crate::reply::reply_completed;
use crate::reply::reply_has_directive;
use crate::reply::ReplyKind;

verus! {

/// The one action the loop takes next.
#[derive(Clone, Debug, PartialEq)]
pub enum AgentAction {
    /// The completion marker was observed: the loop stops.
    Finish,
    /// No directive was proposed yet: send the held prompt asking for one.
    RequestDirective(String),
    /// A directive was proposed: put the held command before the user.
    ProposeCommand(String),
}

/// The prompt a `RequestDirective` holds.
pub open spec fn requested_prompt(a: AgentAction) -> Seq<char> {
    match a {
        AgentAction::RequestDirective(p) => p@,
        _ => Seq::empty(),
    }
}

/// The command a `ProposeCommand` holds.
pub open spec fn proposed_command(a: AgentAction) -> Seq<char> {
    match a {
        AgentAction::ProposeCommand(c) => c@,
        _ => Seq::empty(),
    }
}

/// Decides the next step of the agent loop from the most recent assistant
/// reply. The completion check comes first: a reply holding the completion
/// marker ends the loop even when it also proposes a command, so no
/// approval is ever offered for it.
pub fn next_action(state: &ConversationState, task: &str) -> (a: AgentAction)
    requires
        state.wf(),
    ensures
        ({
            let last = state@.messages.last().content;
            &&& (a is Finish) <==> reply_completed(last)
            &&& !reply_completed(last) ==> ((a is ProposeCommand) <==> reply_has_directive(last))
            &&& (a is ProposeCommand) ==> proposed_command(a) == directive_of(last)
            &&& (a is RequestDirective) ==> requested_prompt(a) == directive_prompt_spec(task@)
        }),
{
    let last = state.last_message();
    match analyze_reply(last.content.as_str()) {
        ReplyKind::Completed => AgentAction::Finish,
        ReplyKind::Directive(c) => AgentAction::ProposeCommand(c),
        ReplyKind::NoDirective => AgentAction::RequestDirective(directive_prompt(task)),
    }
}

} // verus!
