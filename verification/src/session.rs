//! Session identity and management helpers: the deterministic record
//! filename for a session key, recognizing record filenames, the label the
//! session manager shows, and merging one conversation onto another.

use vstd::prelude::*;

use crate::convo::ConversationState;
use crate::convo::StateV;
use crate::json::hex_digit;
use crate::json::hex_digit_char;
use crate::json::push_char;
use crate::text::find_line_end;
use crate::text::line_end_from;
use crate::text::match_at_idx;
use crate::text::starts_with;

verus! {

/// The decimal digits of `n`, most significant first.
pub open spec fn dec_digits(n: nat) -> Seq<char>
    decreases n,
{
    if n < 10 {
        seq![hex_digit(n as int)]
    } else {
        dec_digits(n / 10).push(hex_digit((n % 10) as int))
    }
}

/// Appends the decimal digits of `n` to `out`.
fn push_decimal(out: &mut String, n: u64)
    ensures
        final(out)@ == old(out)@ + dec_digits(n as nat),
    decreases n,
{
    if n < 10 {
        push_char(out, hex_digit_char(n as u32));
    } else {
        push_decimal(out, n / 10);
        push_char(out, hex_digit_char((n % 10) as u32));
        proof {
            assert((old(out)@ + dec_digits((n / 10) as nat)) + seq![hex_digit((n % 10) as int)]
                =~= old(out)@ + dec_digits(n as nat));
        }
    }
}

/// The record filename for session key `key`: the fixed transcript prefix
/// followed by the key in decimal.
pub open spec fn transcript_name_spec(key: nat) -> Seq<char> {
    "gpt_transcript-"@ + dec_digits(key)
}

/// Builds the record filename for session key `key`.
pub fn transcript_name(key: u64) -> (r: String)
    ensures
        r@ == transcript_name_spec(key as nat),
{
    let mut r = String::from_str("gpt_transcript-");
    push_decimal(&mut r, key);
    r
}

/// Recognizes a record filename by its fixed prefix.
pub fn is_transcript_name(name: &str) -> (r: bool)
    ensures
        r == starts_with(name@, "gpt_transcript-"@),
{
    match_at_idx(name, "gpt_transcript-", 0)
}

/// The preview the session manager shows for one conversation: the first
/// line of the first turn after the priming message, capped at 64
/// characters; empty when no such turn exists.
pub open spec fn preview_spec(v: StateV) -> Seq<char> {
    if v.messages.len() > 1 {
        let c = v.messages[1].content;
        let e = line_end_from(c, 0);
        c.take(if e > 64 { 64int } else { e })
    } else {
        Seq::empty()
    }
}

/// Builds the preview text for one conversation.
pub fn convo_preview(state: &ConversationState) -> (r: String)
    ensures
        r@ == preview_spec(state@),
{
    if state.messages.len() > 1 {
        let c = state.messages[1].content.as_str();
        proof {
            assert(c@ == state@.messages[1].content);
        }
        let e = find_line_end(c, 0);
        let cap = if e > 64 {
            64
        } else {
            e
        };
        let r = c.substring_char(0, cap).to_owned();
        proof {
            assert(c@.subrange(0, cap as int) =~= c@.take(cap as int));
        }
        r
    } else {
        String::new()
    }
}

/// The label the session manager shows: the record filename, an arrow, the
/// preview.
pub open spec fn label_spec(name: Seq<char>, preview: Seq<char>) -> Seq<char> {
    name + " => "@ + preview
}

/// Builds the label for one persisted conversation.
pub fn convo_label(name: &str, state: &ConversationState) -> (r: String)
    ensures
        r@ == label_spec(name@, preview_spec(state@)),
{
    let mut out = name.to_owned();
    out.append(" => ");
    let p = convo_preview(state);
    out.append(p.as_str());
    out
}

/// Appends every turn after the priming message of `other` onto the end of
/// `current`; refused, with `current` untouched, when the models differ.
pub fn merge_into(current: &mut ConversationState, other: &ConversationState) -> (r: bool)
    requires
        old(current).wf(),
        other.wf(),
        other@.messages.len() >= 1,
    ensures
        r == (old(current)@.model == other@.model),
        r ==> final(current)@.messages == old(current)@.messages + other@.messages.skip(1),
        !r ==> *final(current) == *old(current),
        final(current)@.model == old(current)@.model,
        final(current).wf(),
{
    if !(current.model == other.model) {
        return false;
    }
    let mut i: usize = 1;
    proof {
        assert(old(current)@.messages + other@.messages.subrange(1, 1) =~= old(current)@.messages);
    }
    while i < other.messages.len()
        invariant
            1 <= i <= other.messages.len(),
            other.wf(),
            other@.messages.len() == other.messages.len(),
            current@.messages == old(current)@.messages + other@.messages.subrange(1, i as int),
            current@.model == old(current)@.model,
            current.wf(),
        decreases other.messages.len() - i,
    {
        let m = other.messages[i].duplicate();
        proof {
            assert(m@ == other@.messages[i as int]);
        }
        current.push_message(m);
        proof {
            assert((old(current)@.messages + other@.messages.subrange(1, i as int)).push(
                other@.messages[i as int],
            ) =~= old(current)@.messages + other@.messages.subrange(1, i + 1));
        }
        i += 1;
    }
    proof {
        assert(other@.messages.subrange(1, other@.messages.len() as int) =~= other@.messages.skip(
            1,
        ));
    }
    true
}

} // verus!
