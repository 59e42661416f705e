//! History rendering: the banner-framed transcript view written out for the
//! pager, with separators matching the terminal width.

use vstd::prelude::*;

use crate::convo::ConversationState;
use crate::convo::MsgV;
use crate::convo::role_str;
use crate::convo::role_text;
use crate::json::push_char;

verus! {

/// `n` copies of `c`.
pub open spec fn repeat_char(c: char, n: nat) -> Seq<char>
    decreases n,
{
    if n == 0 {
        Seq::empty()
    } else {
        repeat_char(c, (n - 1) as nat).push(c)
    }
}

/// Appends `n` copies of `c` to `out`.
fn append_repeat(out: &mut String, c: char, n: usize)
    ensures
        final(out)@ == old(out)@ + repeat_char(c, n as nat),
{
    proof {
        assert(old(out)@ + repeat_char(c, 0) =~= old(out)@);
    }
    let mut i: usize = 0;
    while i < n
        invariant
            i <= n,
            out@ == old(out)@ + repeat_char(c, i as nat),
        decreases n - i,
    {
        push_char(out, c);
        proof {
            assert((old(out)@ + repeat_char(c, i as nat)) + seq![c] =~= old(out)@ + repeat_char(
                c,
                (i + 1) as nat,
            ));
        }
        i += 1;
    }
}

/// One message's block in the history view: a heavy separator, the role
/// banner, a light separator, then the content verbatim.
pub open spec fn render_msg_spec(m: MsgV, cols: nat) -> Seq<char> {
    "\n\n"@ + repeat_char('\u{2583}', cols) + "\u{258d}"@ + role_text(m.role) + " \u{2590}\n"@
        + repeat_char('\u{2580}', cols) + "\n"@ + m.content
}

/// The whole history view: every message's block, in order.
pub open spec fn render_msgs_spec(ms: Seq<MsgV>, cols: nat) -> Seq<char>
    decreases ms.len(),
{
    if ms.len() == 0 {
        Seq::empty()
    } else {
        render_msg_spec(ms[0], cols) + render_msgs_spec(ms.skip(1), cols)
    }
}

/// Rendering distributes over concatenation of message lists.
proof fn lemma_render_append(a: Seq<MsgV>, b: Seq<MsgV>, cols: nat)
    ensures
        render_msgs_spec(a + b, cols) == render_msgs_spec(a, cols) + render_msgs_spec(b, cols),
    decreases a.len(),
{
    if a.len() == 0 {
        assert(a + b =~= b);
        assert(render_msgs_spec(a, cols) + render_msgs_spec(b, cols) =~= render_msgs_spec(
            b,
            cols,
        ));
    } else {
        lemma_render_append(a.skip(1), b, cols);
        assert((a + b).skip(1) =~= a.skip(1) + b);
        assert((a + b).len() > 0 && (a + b)[0] == a[0]);
        assert(render_msg_spec(a[0], cols) + (render_msgs_spec(a.skip(1), cols) + render_msgs_spec(
            b,
            cols,
        )) =~= (render_msg_spec(a[0], cols) + render_msgs_spec(a.skip(1), cols))
            + render_msgs_spec(b, cols));
    }
}

/// Renders the whole conversation for display, with separators `cols`
/// characters wide.
pub fn render_history(state: &ConversationState, cols: usize) -> (r: String)
    ensures
        r@ == render_msgs_spec(state@.messages, cols as nat),
{
    let ghost ms = state@.messages;
    let mut out = String::new();
    proof {
        assert(ms.take(0) =~= Seq::<MsgV>::empty());
        assert(out@ + render_msgs_spec(ms.take(0), cols as nat) =~= out@);
    }
    let mut i: usize = 0;
    while i < state.messages.len()
        invariant
            i <= state.messages.len(),
            ms == state@.messages,
            ms.len() == state.messages.len(),
            out@ == render_msgs_spec(ms.take(i as int), cols as nat),
        decreases state.messages.len() - i,
    {
        let ghost before = out@;
        let m = &state.messages[i];
        out.append("\n\n");
        append_repeat(&mut out, '\u{2583}', cols);
        out.append("\u{258d}");
        out.append(role_str(m.role));
        out.append(" \u{2590}\n");
        append_repeat(&mut out, '\u{2580}', cols);
        out.append("\n");
        out.append(m.content.as_str());
        proof {
            assert(m@ == ms[i as int]);
            assert(out@ =~= before + render_msg_spec(ms[i as int], cols as nat));
            let one = seq![ms[i as int]];
            lemma_render_append(ms.take(i as int), one, cols as nat);
            assert(one.len() == 1 && one[0] == ms[i as int]);
            assert(one.skip(1) =~= Seq::<MsgV>::empty());
            assert(render_msgs_spec(one, cols as nat) == render_msg_spec(ms[i as int], cols as nat)
                + render_msgs_spec(Seq::<MsgV>::empty(), cols as nat));
            assert(render_msgs_spec(Seq::<MsgV>::empty(), cols as nat) == Seq::<char>::empty());
            assert(render_msgs_spec(one, cols as nat) =~= render_msg_spec(
                ms[i as int],
                cols as nat,
            ));
            assert(ms.take(i as int) + one =~= ms.take(i + 1));
            assert(out@ =~= render_msgs_spec(ms.take(i + 1), cols as nat));
        }
        i += 1;
    }
    proof {
        assert(ms.take(state.messages.len() as int) =~= ms);
    }
    out
}

/// Relies on `term_size::dimensions_stdout`: the (columns, rows) of the
/// terminal on standard output, when standard output is a terminal.
#[verifier::external_body]
fn stdout_dimensions() -> (r: Option<(usize, usize)>) {
    term_size::dimensions_stdout()
}

/// The width to draw separators at: the terminal's column count, or 80
/// where none is reported.
pub fn terminal_columns() -> (r: usize) {
    match stdout_dimensions() {
        Some((w, _)) => w,
        None => 80,
    }
}

} // verus!
