//! Canonical JSON string framing: escaping for emitted text, and the exact
//! parse of an escaped string body. Shared by the request-body builder and
//! the session codec.

use vstd::prelude::*;

verus! {

/// Appends one character to a string.
///
/// Relies on `String::push`: appends the given character to the end of this
/// `String`.
#[verifier::external_body]
pub fn push_char(out: &mut String, c: char)
    ensures
        final(out)@ == old(out)@ + seq![c],
{
    out.push(c);
}

/// The lower-case hexadecimal digit for a value below 16.
pub open spec fn hex_digit(n: int) -> char {
    if n == 0 {
        '0'
    } else if n == 1 {
        '1'
    } else if n == 2 {
        '2'
    } else if n == 3 {
        '3'
    } else if n == 4 {
        '4'
    } else if n == 5 {
        '5'
    } else if n == 6 {
        '6'
    } else if n == 7 {
        '7'
    } else if n == 8 {
        '8'
    } else if n == 9 {
        '9'
    } else if n == 10 {
        'a'
    } else if n == 11 {
        'b'
    } else if n == 12 {
        'c'
    } else if n == 13 {
        'd'
    } else if n == 14 {
        'e'
    } else {
        'f'
    }
}

/// Value of a lower-case hexadecimal digit, or -1 for any other character.
pub open spec fn hex_val(c: char) -> int {
    if c == '0' {
        0
    } else if c == '1' {
        1
    } else if c == '2' {
        2
    } else if c == '3' {
        3
    } else if c == '4' {
        4
    } else if c == '5' {
        5
    } else if c == '6' {
        6
    } else if c == '7' {
        7
    } else if c == '8' {
        8
    } else if c == '9' {
        9
    } else if c == 'a' {
        10
    } else if c == 'b' {
        11
    } else if c == 'c' {
        12
    } else if c == 'd' {
        13
    } else if c == 'e' {
        14
    } else if c == 'f' {
        15
    } else {
        -1
    }
}

/// Reading back the digit emitted for a value below 16 returns the value.
pub proof fn lemma_hex_digit_val(n: int)
    requires
        0 <= n < 16,
    ensures
        hex_val(hex_digit(n)) == n,
{
}

/// Executable form of `hex_digit`.
pub fn hex_digit_char(n: u32) -> (r: char)
    requires
        n < 16,
    ensures
        r == hex_digit(n as int),
{
    if n == 0 {
        '0'
    } else if n == 1 {
        '1'
    } else if n == 2 {
        '2'
    } else if n == 3 {
        '3'
    } else if n == 4 {
        '4'
    } else if n == 5 {
        '5'
    } else if n == 6 {
        '6'
    } else if n == 7 {
        '7'
    } else if n == 8 {
        '8'
    } else if n == 9 {
        '9'
    } else if n == 10 {
        'a'
    } else if n == 11 {
        'b'
    } else if n == 12 {
        'c'
    } else if n == 13 {
        'd'
    } else if n == 14 {
        'e'
    } else {
        'f'
    }
}

/// Executable form of `hex_val`, as an option.
pub fn hex_val_char(c: char) -> (r: Option<u32>)
    ensures
        match r {
            Some(v) => v < 16 && hex_val(c) == v as int,
            None => hex_val(c) == -1,
        },
{
    if c == '0' {
        Some(0)
    } else if c == '1' {
        Some(1)
    } else if c == '2' {
        Some(2)
    } else if c == '3' {
        Some(3)
    } else if c == '4' {
        Some(4)
    } else if c == '5' {
        Some(5)
    } else if c == '6' {
        Some(6)
    } else if c == '7' {
        Some(7)
    } else if c == '8' {
        Some(8)
    } else if c == '9' {
        Some(9)
    } else if c == 'a' {
        Some(10)
    } else if c == 'b' {
        Some(11)
    } else if c == 'c' {
        Some(12)
    } else if c == 'd' {
        Some(13)
    } else if c == 'e' {
        Some(14)
    } else if c == 'f' {
        Some(15)
    } else {
        None
    }
}

/// How one character is written inside a JSON string: quote and backslash
/// take a two-character escape, control characters the six-character
/// `\u00..` escape, everything else stands as itself.
pub open spec fn esc_char(c: char) -> Seq<char> {
    if c == '"' {
        seq!['\\', '"']
    } else if c == '\\' {
        seq!['\\', '\\']
    } else if (c as u32) < 0x20 {
        seq!['\\', 'u', '0', '0', hex_digit(((c as u32) / 16) as int), hex_digit(((c as u32) % 16) as int)]
    } else {
        seq![c]
    }
}

/// A text escaped for standing inside a JSON string.
pub open spec fn esc(s: Seq<char>) -> Seq<char>
    decreases s.len(),
{
    if s.len() == 0 {
        Seq::empty()
    } else {
        esc_char(s[0]) + esc(s.skip(1))
    }
}

/// Escaping distributes over concatenation.
pub proof fn lemma_esc_append(a: Seq<char>, b: Seq<char>)
    ensures
        esc(a + b) == esc(a) + esc(b),
    decreases a.len(),
{
    if a.len() == 0 {
        assert(a + b =~= b);
        assert(esc(a) + esc(b) =~= esc(b));
    } else {
        lemma_esc_append(a.skip(1), b);
        assert((a + b).skip(1) =~= a.skip(1) + b);
        assert((a + b).len() > 0 && (a + b)[0] == a[0]);
        assert(esc_char(a[0]) + (esc(a.skip(1)) + esc(b)) =~= (esc_char(a[0]) + esc(a.skip(1)))
            + esc(b));
    }
}

/// Escaping one character alone yields its escape.
pub proof fn lemma_esc_single(c: char)
    ensures
        esc(seq![c]) == esc_char(c),
{
    assert(seq![c].skip(1) =~= Seq::<char>::empty());
    assert(esc_char(c) + esc(Seq::<char>::empty()) =~= esc_char(c));
}

/// Appends `s`, escaped, to `out`.
pub fn append_escaped(out: &mut String, s: &str)
    ensures
        final(out)@ == old(out)@ + esc(s@),
{
    let n = s.unicode_len();
    proof {
        assert(s@.take(0) =~= Seq::<char>::empty());
        assert(old(out)@ + esc(s@.take(0)) =~= old(out)@);
    }
    let mut i: usize = 0;
    while i < n
        invariant
            i <= n,
            n == s@.len(),
            out@ == old(out)@ + esc(s@.take(i as int)),
        decreases n - i,
    {
        let c = s.get_char(i);
        if c == '"' {
            push_char(out, '\\');
            push_char(out, '"');
        } else if c == '\\' {
            push_char(out, '\\');
            push_char(out, '\\');
        } else if (c as u32) < 0x20 {
            let v = c as u32;
            push_char(out, '\\');
            push_char(out, 'u');
            push_char(out, '0');
            push_char(out, '0');
            push_char(out, hex_digit_char(v / 16));
            push_char(out, hex_digit_char(v % 16));
        } else {
            push_char(out, c);
        }
        proof {
            lemma_esc_append(s@.take(i as int), seq![c]);
            lemma_esc_single(c);
            assert(s@.take(i + 1) =~= s@.take(i as int) + seq![c]);
            assert(out@ =~= old(out)@ + esc(s@.take(i + 1)));
        }
        i += 1;
    }
    proof {
        assert(s@.take(n as int) =~= s@);
    }
}

/// The control character with code point `v`.
pub open spec fn ctrl_char(v: int) -> char {
    (v as u32) as char
}

/// Exact parse of a JSON string body up to and including the closing quote:
/// the decoded text and the count of characters consumed. `None` when the
/// input is not a string body in the canonical form the escaper emits.
pub open spec fn d_str(s: Seq<char>) -> Option<(Seq<char>, int)>
    decreases s.len(),
{
    if s.len() == 0 {
        None
    } else if s[0] == '"' {
        Some((Seq::empty(), 1))
    } else if s[0] == '\\' {
        if s.len() >= 2 && (s[1] == '"' || s[1] == '\\') {
            match d_str(s.skip(2)) {
                Some(p) => Some((seq![s[1]] + p.0, p.1 + 2)),
                None => None,
            }
        } else if s.len() >= 6 && s[1] == 'u' && s[2] == '0' && s[3] == '0' && hex_val(s[4]) >= 0
            && hex_val(s[5]) >= 0 && hex_val(s[4]) * 16 + hex_val(s[5]) < 0x20 {
            match d_str(s.skip(6)) {
                Some(p) => Some((seq![ctrl_char(hex_val(s[4]) * 16 + hex_val(s[5]))] + p.0, p.1 + 6)),
                None => None,
            }
        } else {
            None
        }
    } else if (s[0] as u32) >= 0x20 {
        match d_str(s.skip(1)) {
            Some(p) => Some((seq![s[0]] + p.0, p.1 + 1)),
            None => None,
        }
    } else {
        None
    }
}

/// Parsing an escaped text followed by the closing quote returns exactly
/// that text and consumes exactly through the quote, whatever follows.
pub proof fn lemma_parse_escaped(t: Seq<char>, rest: Seq<char>)
    ensures
        d_str(esc(t) + seq!['"'] + rest) == Some((t, esc(t).len() as int + 1)),
    decreases t.len(),
{
    broadcast use vstd::utf8::char_u32_cast;

    let s = esc(t) + seq!['"'] + rest;
    if t.len() == 0 {
        assert(s =~= seq!['"'] + rest);
        assert(s[0] == '"');
        assert(t =~= Seq::<char>::empty());
    } else {
        let c = t[0];
        let t1 = t.skip(1);
        lemma_parse_escaped(t1, rest);
        let s1 = esc(t1) + seq!['"'] + rest;
        assert(esc(t) == esc_char(c) + esc(t1));
        if c == '"' || c == '\\' {
            assert(s[0] == '\\' && s[1] == c);
            assert(s.skip(2) =~= s1);
            assert(seq![s[1]] + t1 =~= t);
        } else if (c as u32) < 0x20 {
            let hi = ((c as u32) / 16) as int;
            let lo = ((c as u32) % 16) as int;
            lemma_hex_digit_val(hi);
            lemma_hex_digit_val(lo);
            assert(s[0] == '\\' && s[1] == 'u' && s[2] == '0' && s[3] == '0');
            assert(s[4] == hex_digit(hi) && s[5] == hex_digit(lo));
            assert(hi * 16 + lo == (c as u32) as int);
            let v = hex_val(s[4]) * 16 + hex_val(s[5]);
            assert(v == (c as u32) as int);
            assert((v as u32) == c as u32);
            vstd::utf8::char_u32_cast(c, v as u32);
            assert(ctrl_char(v) == c);
            assert(s.skip(6) =~= s1);
            assert(seq![c] + t1 =~= t);
        } else {
            assert(s[0] == c);
            assert(s.skip(1) =~= s1);
            assert(seq![c] + t1 =~= t);
        }
    }
}

/// Parses one string body starting at `from`, which stands just past the
/// opening quote; returns the decoded text and the index just past the
/// closing quote.
pub fn parse_string_body(s: &str, from: usize) -> (r: Option<(String, usize)>)
    requires
        from <= s@.len(),
    ensures
        match r {
            Some(p) => {
                &&& d_str(s@.skip(from as int)) == Some((p.0@, p.1 - from as int))
                &&& from < p.1 <= s@.len()
            },
            None => d_str(s@.skip(from as int)) is None,
        },
{
    let n = s.unicode_len();
    let mut i: usize = from;
    let mut acc = String::new();
    loop
        invariant
            from <= i <= n,
            n == s@.len(),
            ({
                let d0 = d_str(s@.skip(from as int));
                match d_str(s@.skip(i as int)) {
                    Some(p) => d0 == Some((acc@ + p.0, (i - from) + p.1)),
                    None => d0 is None,
                }
            }),
        decreases n - i,
    {
        let ghost di = s@.skip(i as int);
        if i == n {
            proof {
                assert(di.len() == 0);
            }
            return None;
        }
        proof {
            assert(di[0] == s@[i as int]);
            assert(di.len() == n - i);
        }
        let c = s.get_char(i);
        if c == '"' {
            proof {
                assert(acc@ + Seq::<char>::empty() =~= acc@);
            }
            return Some((acc, i + 1));
        } else if c == '\\' {
            if i + 1 == n {
                return None;
            }
            proof {
                assert(di[1] == s@[i + 1]);
            }
            let e = s.get_char(i + 1);
            if e == '"' || e == '\\' {
                let ghost acc0 = acc@;
                push_char(&mut acc, e);
                proof {
                    assert(di.skip(2) =~= s@.skip(i + 2));
                    if d_str(s@.skip(i + 2)) is Some {
                        let p = d_str(s@.skip(i + 2))->0;
                        assert(acc@ + p.0 =~= acc0 + (seq![e] + p.0));
                    }
                }
                i += 2;
            } else if e == 'u' {
                if n - i < 6 {
                    return None;
                }
                proof {
                    assert(di[2] == s@[i + 2] && di[3] == s@[i + 3] && di[4] == s@[i + 4] && di[5]
                        == s@[i + 5]);
                }
                if s.get_char(i + 2) != '0' || s.get_char(i + 3) != '0' {
                    return None;
                }
                let h4 = hex_val_char(s.get_char(i + 4));
                let h5 = hex_val_char(s.get_char(i + 5));
                match (h4, h5) {
                    (Some(a), Some(b)) => {
                        let v = a * 16 + b;
                        if v >= 0x20 {
                            return None;
                        }
                        let dc = (v as u8) as char;
                        let ghost acc0 = acc@;
                        push_char(&mut acc, dc);
                        proof {
                            assert(dc == ctrl_char(v as int));
                            assert(di.skip(6) =~= s@.skip(i + 6));
                            if d_str(s@.skip(i + 6)) is Some {
                                let p = d_str(s@.skip(i + 6))->0;
                                assert(acc@ + p.0 =~= acc0 + (seq![dc] + p.0));
                            }
                        }
                        i += 6;
                    },
                    _ => {
                        return None;
                    },
                }
            } else {
                return None;
            }
        } else if (c as u32) >= 0x20 {
            let ghost acc0 = acc@;
            push_char(&mut acc, c);
            proof {
                assert(di.skip(1) =~= s@.skip(i + 1));
                if d_str(s@.skip(i + 1)) is Some {
                    let p = d_str(s@.skip(i + 1))->0;
                    assert(acc@ + p.0 =~= acc0 + (seq![c] + p.0));
                }
            }
            i += 1;
        } else {
            return None;
        }
    }
}

} // verus!
