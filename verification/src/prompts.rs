//! Composition of the user turns the agent loop feeds back into the
//! conversation: the directive request, execution results, spawn failures,
//! and rejection feedback.

use vstd::prelude::*;

use crate::text::contains_pat;
use crate::text::match_at;

verus! {

/// The prompt asking the service to propose exactly one next command for
/// `task`, or to emit the completion marker.
pub open spec fn directive_prompt_spec(task: Seq<char>) -> Seq<char> {
    "Original task: "@ + task
        + ". Suggest the next command to run. Format your response as: COMMAND: <command> followed by an explanation. Or say DONE if the task is complete."@
}

/// Builds the directive request for `task`.
pub fn directive_prompt(task: &str) -> (r: String)
    ensures
        r@ == directive_prompt_spec(task@),
        r@.len() > 0,
{
    proof {
        reveal_strlit("Original task: ");
    }
    let mut r = String::from_str("Original task: ");
    r.append(task);
    r.append(
        ". Suggest the next command to run. Format your response as: COMMAND: <command> followed by an explanation. Or say DONE if the task is complete.",
    );
    r
}

/// The turn narrating a command's captured output: both streams, verbatim,
/// under labeled sections.
pub open spec fn exec_result_spec(stdout: Seq<char>, stderr: Seq<char>) -> Seq<char> {
    "Command output:\nstdout:\n"@ + stdout + "\nstderr:\n"@ + stderr
}

/// Builds the execution-result turn from the two captured streams.
pub fn exec_result_message(stdout: &str, stderr: &str) -> (r: String)
    ensures
        r@ == exec_result_spec(stdout@, stderr@),
        r@.len() > 0,
{
    proof {
        reveal_strlit("Command output:\nstdout:\n");
    }
    let mut r = String::from_str("Command output:\nstdout:\n");
    r.append(stdout);
    r.append("\nstderr:\n");
    r.append(stderr);
    r
}

/// The turn narrating that the proposed command could not be spawned.
pub open spec fn spawn_failure_spec(error: Seq<char>) -> Seq<char> {
    "Command failed: "@ + error
}

/// Builds the spawn-failure turn from the reported error text.
pub fn spawn_failure_message(error: &str) -> (r: String)
    ensures
        r@ == spawn_failure_spec(error@),
        r@.len() > 0,
{
    proof {
        reveal_strlit("Command failed: ");
    }
    let mut r = String::from_str("Command failed: ");
    r.append(error);
    r
}

/// The execution-result turn carries both captured streams verbatim: each
/// occurs unchanged in the composed text, under its labeled section.
pub proof fn lemma_exec_result_carries_streams(stdout: Seq<char>, stderr: Seq<char>)
    ensures
        contains_pat(exec_result_spec(stdout, stderr), stdout),
        contains_pat(exec_result_spec(stdout, stderr), stderr),
{
    let head = "Command output:\nstdout:\n"@;
    let mid = "\nstderr:\n"@;
    let s = exec_result_spec(stdout, stderr);
    assert(match_at(s, stdout, head.len() as int)) by {
        assert forall|k: int| 0 <= k < stdout.len() implies s[head.len() + k] == stdout[k] by {
            assert((head + stdout)[head.len() + k] == stdout[k]);
        }
    }
    let at = head.len() + stdout.len() + mid.len();
    assert(match_at(s, stderr, at as int)) by {
        assert forall|k: int| 0 <= k < stderr.len() implies s[at + k] == stderr[k] by {}
    }
}

/// The turn stating that the user rejected the proposed command, carrying
/// the user's comment and requesting an alternative.
pub open spec fn rejection_spec(comment: Seq<char>) -> Seq<char> {
    "Command was rejected by user.\nFEEDBACK: "@ + comment
        + "\n\nPlease suggest an alternative."@
}

/// Builds the rejection-feedback turn from the user's comment.
pub fn rejection_message(comment: &str) -> (r: String)
    ensures
        r@ == rejection_spec(comment@),
        r@.len() > 0,
{
    proof {
        reveal_strlit("Command was rejected by user.\nFEEDBACK: ");
    }
    let mut r = String::from_str("Command was rejected by user.\nFEEDBACK: ");
    r.append(comment);
    r.append("\n\nPlease suggest an alternative.");
    r
}

/// The rejection turn carries the user's comment verbatim.
pub proof fn lemma_rejection_carries_comment(comment: Seq<char>)
    ensures
        contains_pat(rejection_spec(comment), comment),
{
    let head = "Command was rejected by user.\nFEEDBACK: "@;
    let s = rejection_spec(comment);
    assert(match_at(s, comment, head.len() as int)) by {
        assert forall|k: int| 0 <= k < comment.len() implies s[head.len() + k] == comment[k] by {
            assert((head + comment)[head.len() + k] == comment[k]);
        }
    }
}

} // verus!
