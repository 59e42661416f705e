//! The small grammar recognized in free-form assistant replies: the
//! completion marker, the directive marker, and directive extraction.

use vstd::prelude::*;

use crate::text::contains_pat;
use crate::text::contains_str;
use crate::text::find_line_end;
use crate::text::find_pat;
use crate::text::first_match;
use crate::text::lemma_first_match_unique;
use crate::text::line_end_from;
use crate::text::strip_prefix_rep;
use crate::text::strip_prefix_rep_offset;
use crate::text::trim;
use crate::text::trim_str;

verus! {

/// The literal token signaling the agent loop should stop.
pub open spec fn done_marker() -> Seq<char> {
    "DONE"@
}

/// The literal prefix identifying a line as a proposed command.
pub open spec fn command_marker() -> Seq<char> {
    "COMMAND:"@
}

/// A reply asks the loop to stop when it holds the completion marker.
pub open spec fn reply_completed(s: Seq<char>) -> bool {
    contains_pat(s, done_marker())
}

/// A reply proposes a command when it holds the directive marker.
pub open spec fn reply_has_directive(s: Seq<char>) -> bool {
    contains_pat(s, command_marker())
}

/// The command a reply proposes: the first line holding the directive
/// marker, from the marker on, with repetitions of the marker and
/// surrounding white space stripped.
pub open spec fn directive_of(s: Seq<char>) -> Seq<char> {
    let i = first_match(s, command_marker());
    let line = s.subrange(i, line_end_from(s, i));
    trim(strip_prefix_rep(line, command_marker()))
}

/// What a free-form reply means to the agent loop.
#[derive(Clone, Debug, PartialEq)]
pub enum ReplyKind {
    /// The completion marker was found: the task is finished.
    Completed,
    /// The directive marker was found: the held text is the proposed command.
    Directive(String),
    /// Neither marker was found.
    NoDirective,
}

/// The proposed command a `Directive` holds.
pub open spec fn directive_text(r: ReplyKind) -> Seq<char> {
    match r {
        ReplyKind::Directive(c) => c@,
        _ => Seq::empty(),
    }
}

/// Classifies one assistant reply. The completion marker takes precedence:
/// a reply holding it is `Completed` even when a directive marker is also
/// present, so the loop halts before any approval step.
pub fn analyze_reply(reply: &str) -> (r: ReplyKind)
    ensures
        (r is Completed) <==> reply_completed(reply@),
        !reply_completed(reply@) ==> ((r is Directive) <==> reply_has_directive(reply@)),
        (r is Directive) ==> directive_text(r) == directive_of(reply@),
{
    if contains_str(reply, "DONE") {
        return ReplyKind::Completed;
    }
    match extract_directive(reply) {
        Some(c) => ReplyKind::Directive(c),
        None => ReplyKind::NoDirective,
    }
}

/// Locates the directive marker and extracts the proposed command; `None`
/// exactly when the reply holds no marker.
pub fn extract_directive(reply: &str) -> (r: Option<String>)
    ensures
        match r {
            Some(c) => reply_has_directive(reply@) && c@ == directive_of(reply@),
            None => !reply_has_directive(reply@),
        },
{
    let found = find_pat(reply, "COMMAND:");
    match found {
        None => None,
        Some(i) => {
            proof {
                lemma_first_match_unique(reply@, command_marker(), i as int);
            }
            let end = find_line_end(reply, i);
            let line = reply.substring_char(i, end);
            let a = strip_prefix_rep_offset(line, "COMMAND:");
            let n = line.unicode_len();
            let stripped = line.substring_char(a, n);
            proof {
                assert(stripped@ =~= line@.skip(a as int));
            }
            let c = trim_str(stripped);
            Some(c)
        },
    }
}

} // verus!
