//! The persisted session record: a canonical JSON serialization of a
//! `ConversationState`, with an exact parser and a proof that loading what
//! was saved returns the same state.

use vstd::prelude::*;

use crate::convo::ConversationState;
use crate::convo::Message;
use crate::convo::MsgV;
use crate::convo::Role;
use crate::convo::StateV;
use crate::convo::role_str;
use crate::convo::role_text;
use crate::convo::state_wf;
use crate::json::append_escaped;
use crate::json::d_str;
use crate::json::esc;
use crate::json::lemma_parse_escaped;
use crate::json::parse_string_body;
use crate::text::match_at;
use crate::text::match_at_idx;
use crate::text::starts_with;

verus! {

/// Failure to read a persisted record back.
#[derive(Clone, Copy, Debug, PartialEq, Eq, Structural)]
pub enum CodecError {
    /// The bytes do not parse into the expected shape.
    Corrupt,
}

/// The record text of one message.
pub open spec fn enc_msg(m: MsgV) -> Seq<char> {
    "{\"role\":\""@ + role_text(m.role) + "\",\"content\":\""@ + esc(m.content) + "\"}"@
}

/// The record text of a message sequence: the messages' texts joined by
/// commas.
pub open spec fn enc_msgs(ms: Seq<MsgV>) -> Seq<char>
    decreases ms.len(),
{
    if ms.len() == 0 {
        Seq::empty()
    } else if ms.len() == 1 {
        enc_msg(ms[0])
    } else {
        enc_msg(ms[0]) + ","@ + enc_msgs(ms.skip(1))
    }
}

/// The record text of a whole session.
pub open spec fn enc_state(v: StateV) -> Seq<char> {
    "{\"model\":\""@ + esc(v.model) + "\",\"messages\":["@ + enc_msgs(v.messages) + "]}"@
}

/// Extending an encoded prefix by one more message appends a comma (when the
/// prefix is not empty) and that message's text.
pub proof fn lemma_enc_msgs_snoc(ms: Seq<MsgV>, i: int)
    requires
        0 <= i < ms.len(),
    ensures
        enc_msgs(ms.take(i + 1)) == if i == 0 {
            enc_msg(ms[0])
        } else {
            enc_msgs(ms.take(i)) + ","@ + enc_msg(ms[i])
        },
    decreases i,
{
    let t1 = ms.take(i + 1);
    if i == 0 {
        assert(t1 =~= seq![ms[0]]);
        assert(enc_msgs(seq![ms[0]]) == enc_msg(ms[0]));
    } else {
        let t0 = ms.take(i);
        lemma_enc_msgs_snoc(ms.skip(1), i - 1);
        assert(t1.skip(1) =~= ms.skip(1).take(i));
        assert(t0.skip(1) =~= ms.skip(1).take(i - 1));
        assert(t1[0] == ms[0] && t0[0] == ms[0]);
        assert(ms.skip(1)[i - 1] == ms[i]);
        if i == 1 {
            assert(enc_msgs(t1) == enc_msg(ms[0]) + ","@ + enc_msgs(ms.skip(1).take(1)));
            assert(enc_msgs(ms.skip(1).take(1)) == enc_msg(ms[1]));
            assert(enc_msgs(t0) == enc_msg(ms[0]));
        } else {
            assert(enc_msgs(t1) == enc_msg(ms[0]) + ","@ + enc_msgs(ms.skip(1).take(i)));
            assert(enc_msgs(ms.skip(1).take(i)) == enc_msgs(ms.skip(1).take(i - 1)) + ","@
                + enc_msg(ms[i]));
            assert(enc_msgs(t0) == enc_msg(ms[0]) + ","@ + enc_msgs(ms.skip(1).take(i - 1)));
            assert(enc_msg(ms[0]) + ","@ + (enc_msgs(ms.skip(1).take(i - 1)) + ","@ + enc_msg(
                ms[i],
            )) =~= (enc_msg(ms[0]) + ","@ + enc_msgs(ms.skip(1).take(i - 1))) + ","@ + enc_msg(
                ms[i],
            ));
        }
    }
}

/// Appends the record text of one message to `out`.
fn append_encoded_message(out: &mut String, m: &Message)
    ensures
        final(out)@ == old(out)@ + enc_msg(m@),
{
    out.append("{\"role\":\"");
    out.append(role_str(m.role));
    out.append("\",\"content\":\"");
    append_escaped(out, m.content.as_str());
    out.append("\"}");
    proof {
        assert(out@ =~= old(out)@ + enc_msg(m@));
    }
}

/// Appends the record text of a message list to `out`.
pub fn append_encoded_messages(out: &mut String, msgs: &Vec<Message>)
    ensures
        final(out)@ == old(out)@ + enc_msgs(msgs@.map(|i: int, m: Message| m@)),
{
    let ghost ms = msgs@.map(|i: int, m: Message| m@);
    proof {
        assert(ms.take(0) =~= Seq::<MsgV>::empty());
        assert(old(out)@ + enc_msgs(ms.take(0)) =~= old(out)@);
    }
    let mut i: usize = 0;
    while i < msgs.len()
        invariant
            i <= msgs.len(),
            ms == msgs@.map(|i: int, m: Message| m@),
            ms.len() == msgs.len(),
            out@ == old(out)@ + enc_msgs(ms.take(i as int)),
        decreases msgs.len() - i,
    {
        if i > 0 {
            out.append(",");
        }
        append_encoded_message(out, &msgs[i]);
        proof {
            lemma_enc_msgs_snoc(ms, i as int);
            assert(ms[i as int] == msgs@[i as int]@);
            if i > 0 {
                assert(out@ =~= old(out)@ + (enc_msgs(ms.take(i as int)) + ","@ + enc_msg(
                    ms[i as int],
                )));
            }
            assert(out@ =~= old(out)@ + enc_msgs(ms.take(i + 1)));
        }
        i += 1;
    }
    proof {
        assert(ms.take(msgs.len() as int) =~= ms);
    }
}

/// The opening of one message's record text, through the quote that begins
/// the content.
pub open spec fn msg_open_lit(r: Role) -> Seq<char> {
    match r {
        Role::System => "{\"role\":\"system\",\"content\":\""@,
        Role::User => "{\"role\":\"user\",\"content\":\""@,
        Role::Assistant => "{\"role\":\"assistant\",\"content\":\""@,
    }
}

/// Parse of one message's record text under a known role: the content
/// string body, then the closing brace.
pub open spec fn d_msg_body(s: Seq<char>, role: Role) -> Option<(MsgV, int)> {
    let k = msg_open_lit(role).len() as int;
    match d_str(s.skip(k)) {
        Some(p) => {
            let e = k + p.1;
            if e < s.len() && s[e] == '}' {
                Some((MsgV { role, content: p.0 }, e + 1))
            } else {
                None
            }
        },
        None => None,
    }
}

/// Exact parse of one message's record text: the count consumed included.
pub open spec fn d_msg(s: Seq<char>) -> Option<(MsgV, int)> {
    if starts_with(s, msg_open_lit(Role::System)) {
        d_msg_body(s, Role::System)
    } else if starts_with(s, msg_open_lit(Role::User)) {
        d_msg_body(s, Role::User)
    } else if starts_with(s, msg_open_lit(Role::Assistant)) {
        d_msg_body(s, Role::Assistant)
    } else {
        None
    }
}

/// Exact parse of a message list up to and including the closing bracket.
pub open spec fn d_msgs(s: Seq<char>) -> Option<(Seq<MsgV>, int)>
    decreases s.len(),
{
    if s.len() == 0 {
        None
    } else if s[0] == ']' {
        Some((Seq::empty(), 1))
    } else {
        match d_msg(s) {
            Some(p) => {
                if 1 <= p.1 && p.1 < s.len() {
                    if s[p.1] == ',' {
                        match d_msgs(s.skip(p.1 + 1)) {
                            Some(q) => Some((seq![p.0] + q.0, p.1 + 1 + q.1)),
                            None => None,
                        }
                    } else if s[p.1] == ']' {
                        Some((seq![p.0], p.1 + 1))
                    } else {
                        None
                    }
                } else {
                    None
                }
            },
            None => None,
        }
    }
}

/// Exact parse of a whole session record; `None` unless the text is one
/// complete record in canonical form.
pub open spec fn d_state(s: Seq<char>) -> Option<StateV> {
    let l1 = "{\"model\":\""@;
    let l2 = ",\"messages\":["@;
    if !starts_with(s, l1) {
        None
    } else {
        match d_str(s.skip(l1.len() as int)) {
            None => None,
            Some(p) => {
                let k = l1.len() + p.1;
                if starts_with(s.skip(k), l2) {
                    match d_msgs(s.skip(k + l2.len())) {
                        None => None,
                        Some(q) => {
                            let e = k + l2.len() + q.1;
                            if e + 1 == s.len() && s[e] == '}' {
                                Some(StateV { model: p.0, messages: q.0 })
                            } else {
                                None
                            }
                        },
                    }
                } else {
                    None
                }
            },
        }
    }
}

/// Parsing one encoded message returns exactly that message and consumes
/// exactly its text, whatever follows.
pub proof fn lemma_d_msg_enc(m: MsgV, rest: Seq<char>)
    ensures
        d_msg(enc_msg(m) + rest) == Some((m, enc_msg(m).len() as int)),
{
    reveal_strlit("{\"role\":\"");
    reveal_strlit("\",\"content\":\"");
    reveal_strlit("\"}");
    reveal_strlit("system");
    reveal_strlit("user");
    reveal_strlit("assistant");
    reveal_strlit("{\"role\":\"system\",\"content\":\"");
    reveal_strlit("{\"role\":\"user\",\"content\":\"");
    reveal_strlit("{\"role\":\"assistant\",\"content\":\"");
    let s = enc_msg(m) + rest;
    let lit = msg_open_lit(m.role);
    assert(lit =~= "{\"role\":\""@ + role_text(m.role) + "\",\"content\":\""@) by {
        match m.role {
            Role::System => {
                assert(lit =~= "{\"role\":\""@ + "system"@ + "\",\"content\":\""@);
            },
            Role::User => {
                assert(lit =~= "{\"role\":\""@ + "user"@ + "\",\"content\":\""@);
            },
            Role::Assistant => {
                assert(lit =~= "{\"role\":\""@ + "assistant"@ + "\",\"content\":\""@);
            },
        }
    }
    let tail = seq!['}'] + rest;
    assert(s =~= lit + (esc(m.content) + seq!['"'] + tail));
    lemma_parse_escaped(m.content, tail);
    assert(s.skip(lit.len() as int) =~= esc(m.content) + seq!['"'] + tail);
    assert(d_str(s.skip(lit.len() as int)) == Some((m.content, esc(m.content).len() as int + 1)));
    let e = lit.len() + esc(m.content).len() + 1;
    assert(s[e as int] == '}');
    assert(e + 1 < s.len() + 1);
    assert(starts_with(s, lit));
    assert(d_msg_body(s, m.role) == Some(
        (MsgV { role: m.role, content: m.content }, e as int + 1),
    ));
    assert(MsgV { role: m.role, content: m.content } == m);
    assert(enc_msg(m).len() == e + 1);
    match m.role {
        Role::System => {
        },
        Role::User => {
            assert(s[9] == 'u');
            assert(!starts_with(s, msg_open_lit(Role::System))) by {
                if starts_with(s, msg_open_lit(Role::System)) {
                    assert(s[0int + 9] == msg_open_lit(Role::System)[9]);
                }
            }
        },
        Role::Assistant => {
            assert(s[9] == 'a');
            assert(!starts_with(s, msg_open_lit(Role::System))) by {
                if starts_with(s, msg_open_lit(Role::System)) {
                    assert(s[0int + 9] == msg_open_lit(Role::System)[9]);
                }
            }
            assert(!starts_with(s, msg_open_lit(Role::User))) by {
                if starts_with(s, msg_open_lit(Role::User)) {
                    assert(s[0int + 9] == msg_open_lit(Role::User)[9]);
                }
            }
        },
    }
}

/// Parsing an encoded message list followed by the closing bracket returns
/// exactly those messages, whatever follows.
#[verifier::rlimit(60)]
pub proof fn lemma_d_msgs_enc(ms: Seq<MsgV>, rest: Seq<char>)
    ensures
        d_msgs(enc_msgs(ms) + seq![']'] + rest) == Some((ms, enc_msgs(ms).len() as int + 1)),
    decreases ms.len(),
{
    reveal_strlit("{\"role\":\"");
    reveal_strlit(",");
    let s = enc_msgs(ms) + seq![']'] + rest;
    if ms.len() == 0 {
        assert(s =~= seq![']'] + rest);
        assert(s[0] == ']');
        assert(ms =~= Seq::<MsgV>::empty());
    } else {
        let m0 = ms[0];
        assert(enc_msg(m0)[0] == '{');
        if ms.len() == 1 {
            let tail = seq![']'] + rest;
            assert(s =~= enc_msg(m0) + tail);
            lemma_d_msg_enc(m0, tail);
            let l0 = enc_msg(m0).len() as int;
            assert(s[0] == '{');
            assert(1 <= l0 && l0 < s.len());
            assert(s[l0] == ']');
            assert(seq![m0] =~= ms);
        } else {
            let t = ms.skip(1);
            let tail = seq![','] + (enc_msgs(t) + seq![']'] + rest);
            assert(enc_msgs(ms) == enc_msg(m0) + ","@ + enc_msgs(t));
            assert((","@)[0] == ',');
            assert(","@ =~= seq![',']);
            assert(s =~= enc_msg(m0) + tail);
            lemma_d_msg_enc(m0, tail);
            let l0 = enc_msg(m0).len() as int;
            assert(s[0] == '{');
            assert(1 <= l0 && l0 < s.len());
            assert(s[l0] == ',');
            lemma_d_msgs_enc(t, rest);
            assert(s.skip(l0 + 1) =~= enc_msgs(t) + seq![']'] + rest);
            assert(seq![m0] + t =~= ms);
            assert(enc_msgs(ms).len() == l0 + 1 + enc_msgs(t).len());
        }
    }
}

/// Loading what was saved returns exactly the saved session: the canonical
/// record of a session parses back to that session.
pub proof fn lemma_save_load_round_trip(v: StateV)
    ensures
        d_state(enc_state(v)) == Some(v),
{
    reveal_strlit("{\"model\":\"");
    reveal_strlit("\",\"messages\":[");
    reveal_strlit(",\"messages\":[");
    reveal_strlit("]}");
    let l1 = "{\"model\":\""@;
    let l2 = ",\"messages\":["@;
    let s = enc_state(v);
    let endtail = seq![']'] + seq!['}'];
    assert("]}"@ =~= seq![']'] + seq!['}']);
    assert("\",\"messages\":["@ =~= seq!['"'] + l2);
    let mtail = l2 + (enc_msgs(v.messages) + seq![']'] + seq!['}']);
    assert(s =~= l1 + (esc(v.model) + seq!['"'] + mtail));
    lemma_parse_escaped(v.model, mtail);
    assert(s.skip(l1.len() as int) =~= esc(v.model) + seq!['"'] + mtail);
    assert(d_str(s.skip(l1.len() as int)) == Some((v.model, esc(v.model).len() as int + 1)));
    assert(starts_with(s, l1));
    let k = l1.len() + esc(v.model).len() + 1;
    assert(s.skip(k as int) =~= mtail);
    assert(starts_with(s.skip(k as int), l2));
    lemma_d_msgs_enc(v.messages, seq!['}']);
    assert(seq![']'] + seq!['}'] =~= seq![']'] + Seq::<char>::empty() + seq!['}']);
    assert(enc_msgs(v.messages) + seq![']'] + seq!['}'] =~= enc_msgs(v.messages) + seq![']']
        + seq!['}']);
    assert(s.skip(k as int + l2.len() as int) =~= enc_msgs(v.messages) + seq![']'] + seq!['}']);
    assert(d_msgs(s.skip(k as int + l2.len() as int)) == Some(
        (v.messages, enc_msgs(v.messages).len() as int + 1),
    ));
    let e = k + l2.len() + enc_msgs(v.messages).len() + 1;
    assert(s.len() == e + 1);
    assert(s[e as int] == '}');
    assert(StateV { model: v.model, messages: v.messages } == v);
}

/// Serializes a session into its record text.
pub fn encode_state(state: &ConversationState) -> (r: String)
    ensures
        r@ == enc_state(state@),
{
    let mut out = String::from_str("{\"model\":\"");
    append_escaped(&mut out, state.model.as_str());
    out.append("\",\"messages\":[");
    append_encoded_messages(&mut out, &state.messages);
    out.append("]}");
    proof {
        assert(out@ =~= enc_state(state@));
    }
    out
}

/// Consumes the literal `lit` at position `from`, or reports that it does
/// not stand there.
fn expect_lit(s: &str, from: usize, lit: &str) -> (r: Option<usize>)
    requires
        from <= s@.len(),
    ensures
        match r {
            Some(j) => j == from + lit@.len() && j <= s@.len() && starts_with(
                s@.skip(from as int),
                lit@,
            ),
            None => !starts_with(s@.skip(from as int), lit@),
        },
{
    let n = s.unicode_len();
    if match_at_idx(s, lit, from) {
        proof {
            assert forall|k: int|
                0 <= k < lit@.len() implies s@.skip(from as int)[k] == lit@[k] by {
                assert(s@[from + k] == lit@[k]);
            }
            assert(starts_with(s@.skip(from as int), lit@));
            assert(from + lit@.len() <= s@.len());
        }
        Some(from + lit.unicode_len())
    } else {
        proof {
            if starts_with(s@.skip(from as int), lit@) {
                assert forall|k: int| 0 <= k < lit@.len() implies s@[from + k] == lit@[k] by {
                    assert(s@.skip(from as int)[k] == lit@[k]);
                }
                assert(match_at(s@, lit@, from as int));
            }
        }
        None
    }
}

/// Parses one message's record text at `from`.
fn parse_msg(s: &str, from: usize) -> (r: Option<(Message, usize)>)
    requires
        from <= s@.len(),
    ensures
        match r {
            Some(p) => {
                &&& d_msg(s@.skip(from as int)) == Some((p.0@, p.1 - from as int))
                &&& from < p.1 <= s@.len()
            },
            None => d_msg(s@.skip(from as int)) is None,
        },
{
    proof {
        reveal_strlit("}");
    }
    let probe_sys = expect_lit(s, from, "{\"role\":\"system\",\"content\":\"");
    let probe_user = expect_lit(s, from, "{\"role\":\"user\",\"content\":\"");
    let probe_asst = expect_lit(s, from, "{\"role\":\"assistant\",\"content\":\"");
    let (role, j) = if let Some(j) = probe_sys {
        (Role::System, j)
    } else if let Some(j) = probe_user {
        (Role::User, j)
    } else if let Some(j) = probe_asst {
        (Role::Assistant, j)
    } else {
        return None;
    };
    let ghost k = msg_open_lit(role).len() as int;
    proof {
        assert(s@.skip(from as int).skip(k) =~= s@.skip(j as int));
    }
    match parse_string_body(s, j) {
        None => {
            assert(d_msg_body(s@.skip(from as int), role) is None);
            None
        },
        Some((content, j2)) => {
            let ghost sk = s@.skip(from as int);
            let ghost e = k + (j2 - j as int);
            proof {
                assert(e == j2 - from as int);
                if e < sk.len() {
                    assert(sk[e] == s@[j2 as int]);
                }
            }
            match expect_lit(s, j2, "}") {
                Some(j3) => {
                    proof {
                        assert(s@.skip(j2 as int)[0] == s@[j2 as int]);
                        assert(s@.skip(j2 as int)[0] == ("}"@)[0]);
                        assert(s@[j2 as int] == '}');
                        assert(e < sk.len() && sk[e] == '}');
                    }
                    Some((Message { role, content }, j3))
                },
                None => {
                    proof {
                        if e < sk.len() && sk[e] == '}' {
                            assert forall|kk: int|
                                0 <= kk < ("}"@).len() implies s@.skip(j2 as int)[kk] == ("}"@)[kk] by {
                                assert(s@.skip(j2 as int)[kk] == s@[j2 as int]);
                            }
                            assert(starts_with(s@.skip(j2 as int), "}"@));
                        }
                        assert(d_msg_body(s@.skip(from as int), role) is None);
                    }
                    None
                },
            }
        },
    }
}

/// Parses the message list at `from`, through the closing bracket.
#[verifier::rlimit(80)]
fn parse_msgs(s: &str, from: usize) -> (r: Option<(Vec<Message>, usize)>)
    requires
        from <= s@.len(),
    ensures
        match r {
            Some(p) => {
                &&& d_msgs(s@.skip(from as int)) == Some(
                    (p.0@.map(|i: int, m: Message| m@), p.1 - from as int),
                )
                &&& from < p.1 <= s@.len()
            },
            None => d_msgs(s@.skip(from as int)) is None,
        },
{
    let n = s.unicode_len();
    let mut cur = from;
    let mut messages: Vec<Message> = Vec::new();
    proof {
        assert(messages@.map(|i: int, m: Message| m@) =~= Seq::<MsgV>::empty());
    }
    loop
        invariant
            from <= cur <= n,
            n == s@.len(),
            ({
                let d0 = d_msgs(s@.skip(from as int));
                let acc = messages@.map(|i: int, m: Message| m@);
                match d_msgs(s@.skip(cur as int)) {
                    Some(q) => d0 == Some((acc + q.0, (cur - from) + q.1)),
                    None => d0 is None,
                }
            }),
        decreases n - cur,
    {
        let ghost di = s@.skip(cur as int);
        let ghost acc = messages@.map(|i: int, m: Message| m@);
        if cur == n {
            proof {
                assert(di.len() == 0);
            }
            return None;
        }
        proof {
            assert(di[0] == s@[cur as int]);
        }
        let c = s.get_char(cur);
        if c == ']' {
            proof {
                assert(d_msgs(di) == Some((Seq::<MsgV>::empty(), 1int)));
                assert(acc + Seq::<MsgV>::empty() =~= acc);
            }
            return Some((messages, cur + 1));
        }
        match parse_msg(s, cur) {
            None => {
                return None;
            },
            Some((m, nxt)) => {
                proof {
                    assert(d_msg(di) == Some((m@, nxt - cur as int)));
                }
                if nxt == n {
                    proof {
                        assert((nxt - cur as int) >= di.len());
                        assert(d_msgs(di) is None);
                    }
                    return None;
                }
                proof {
                    assert(di[nxt - cur as int] == s@[nxt as int]);
                }
                let c2 = s.get_char(nxt);
                if c2 == ',' {
                    let ghost mv = m@;
                    messages.push(m);
                    proof {
                        assert(messages@.map(|i: int, m: Message| m@) =~= acc.push(mv));
                        assert(di.skip((nxt - cur as int) + 1) =~= s@.skip(nxt + 1));
                        if d_msgs(s@.skip(nxt + 1)) is Some {
                            let q = d_msgs(s@.skip(nxt + 1))->0;
                            assert(d_msgs(di) == Some(
                                (seq![mv] + q.0, (nxt - cur as int) + 1 + q.1),
                            ));
                            assert(acc.push(mv) + q.0 =~= acc + (seq![mv] + q.0));
                        }
                    }
                    cur = nxt + 1;
                } else if c2 == ']' {
                    let ghost mv = m@;
                    messages.push(m);
                    proof {
                        assert(messages@.map(|i: int, m: Message| m@) =~= acc.push(mv));
                        assert(d_msgs(di) == Some((seq![mv], (nxt - cur as int) + 1)));
                        assert(acc.push(mv) =~= acc + seq![mv]);
                    }
                    return Some((messages, nxt + 1));
                } else {
                    return None;
                }
            },
        }
    }
}

/// Parses a whole session record; fails on anything but one complete record
/// in canonical form whose session satisfies the structural invariant.
pub fn decode_state(s: &str) -> (r: Result<ConversationState, CodecError>)
    ensures
        match r {
            Ok(st) => d_state(s@) == Some(st@) && st.wf(),
            Err(_) => match d_state(s@) {
                Some(v) => !state_wf(v),
                None => true,
            },
        },
{
    let n = s.unicode_len();
    proof {
        assert(s@.skip(0) =~= s@);
    }
    let j1 = match expect_lit(s, 0, "{\"model\":\"") {
        Some(j) => j,
        None => {
            return Err(CodecError::Corrupt);
        },
    };
    let (model, j2) = match parse_string_body(s, j1) {
        Some(p) => p,
        None => {
            return Err(CodecError::Corrupt);
        },
    };
    let j3 = match expect_lit(s, j2, ",\"messages\":[") {
        Some(j) => j,
        None => {
            return Err(CodecError::Corrupt);
        },
    };
    let (messages, j4) = match parse_msgs(s, j3) {
        Some(p) => p,
        None => {
            return Err(CodecError::Corrupt);
        },
    };
    if j4 == n {
        return Err(CodecError::Corrupt);
    }
    proof {
        assert(s@.skip(j4 as int)[0] == s@[j4 as int]);
    }
    if s.get_char(j4) != '}' {
        return Err(CodecError::Corrupt);
    }
    if j4 + 1 != n {
        return Err(CodecError::Corrupt);
    }
    let st = ConversationState { model, messages };
    proof {
        assert(d_state(s@) == Some(st@)) by {
            assert(st@.messages == messages@.map(|i: int, m: Message| m@));
            assert(st@.model == model@);
        }
    }
    if st.check_wf() {
        Ok(st)
    } else {
        Err(CodecError::Corrupt)
    }
}

} // verus!
