//! Character-sequence searching and trimming, the primitives behind marker
//! detection and directive extraction.

use vstd::prelude::*;

verus! {

/// `pat` occurs in `s` starting exactly at index `i`.
pub open spec fn match_at(s: Seq<char>, pat: Seq<char>, i: int) -> bool {
    &&& 0 <= i
    &&& i + pat.len() <= s.len()
    &&& forall|k: int| 0 <= k < pat.len() ==> s[i + k] == pat[k]
}

/// `pat` occurs somewhere in `s`.
pub open spec fn contains_pat(s: Seq<char>, pat: Seq<char>) -> bool {
    exists|i: int| match_at(s, pat, i)
}

/// `s` begins with `pat`.
pub open spec fn starts_with(s: Seq<char>, pat: Seq<char>) -> bool {
    match_at(s, pat, 0)
}

/// Index of the first occurrence of `pat` in `s`, if any.
pub open spec fn first_match(s: Seq<char>, pat: Seq<char>) -> int {
    choose|i: int| match_at(s, pat, i) && forall|j: int| 0 <= j < i ==> !match_at(s, pat, j)
}

/// Naive first-occurrence search; `None` exactly when `pat` does not occur.
pub fn find_pat(s: &str, pat: &str) -> (r: Option<usize>)
    ensures
        match r {
            Some(i) => match_at(s@, pat@, i as int) && (forall|j: int|
                0 <= j < i ==> !match_at(s@, pat@, j)),
            None => !contains_pat(s@, pat@),
        },
{
    let n = s.unicode_len();
    let m = pat.unicode_len();
    if m > n {
        assert forall|j: int| !match_at(s@, pat@, j) by {}
        return None;
    }
    if m == 0 {
        assert(match_at(s@, pat@, 0));
        return Some(0);
    }
    let mut i: usize = 0;
    while i <= n - m
        invariant
            1 <= m <= n,
            n == s@.len(),
            m == pat@.len(),
            i <= n - m + 1,
            forall|j: int| 0 <= j < i ==> !match_at(s@, pat@, j),
        decreases n - m + 1 - i,
    {
        let mut j: usize = 0;
        let mut ok = true;
        while ok && j < m
            invariant
                n == s@.len(),
                m == pat@.len(),
                i + m <= n,
                j <= m,
                ok ==> forall|k: int| 0 <= k < j ==> s@[i + k] == pat@[k],
                !ok ==> !match_at(s@, pat@, i as int),
            decreases m - j + (if ok { 1int } else { 0int }),
        {
            if s.get_char(i + j) != pat.get_char(j) {
                assert(!match_at(s@, pat@, i as int));
                ok = false;
            } else {
                j += 1;
            }
        }
        if ok {
            assert(match_at(s@, pat@, i as int));
            return Some(i);
        }
        i += 1;
    }
    assert forall|j: int| !match_at(s@, pat@, j) by {
        if 0 <= j && j + pat@.len() <= s@.len() {
            assert(j < i);
        }
    }
    None
}

/// Substring test; true exactly when `pat` occurs in `s`.
pub fn contains_str(s: &str, pat: &str) -> (r: bool)
    ensures
        r == contains_pat(s@, pat@),
{
    find_pat(s, pat).is_some()
}

/// Index of the first newline at or after `i`, or the length of `s` when the
/// rest of `s` holds none.
pub open spec fn line_end_from(s: Seq<char>, i: int) -> int
    decreases s.len() - i,
{
    if i < 0 {
        0
    } else if i >= s.len() {
        s.len() as int
    } else if s[i] == '\n' {
        i
    } else {
        line_end_from(s, i + 1)
    }
}

/// Scans forward from `from` for the end of the current line.
pub fn find_line_end(s: &str, from: usize) -> (r: usize)
    requires
        from <= s@.len(),
    ensures
        r == line_end_from(s@, from as int),
        from <= r <= s@.len(),
{
    let n = s.unicode_len();
    let mut i: usize = from;
    while i < n
        invariant
            from <= i <= n,
            n == s@.len(),
            line_end_from(s@, from as int) == line_end_from(s@, i as int),
        decreases n - i,
    {
        if s.get_char(i) == '\n' {
            return i;
        }
        i += 1;
    }
    i
}

/// Holds when `first_match` is pinned down: `i` is a match and nothing
/// before it is.
pub proof fn lemma_first_match_unique(s: Seq<char>, pat: Seq<char>, i: int)
    requires
        match_at(s, pat, i),
        forall|j: int| 0 <= j < i ==> !match_at(s, pat, j),
    ensures
        first_match(s, pat) == i,
{
    assert(match_at(s, pat, i) && forall|j: int| 0 <= j < i ==> !match_at(s, pat, j));
    let w = first_match(s, pat);
    assert(match_at(s, pat, w) && forall|j: int| 0 <= j < w ==> !match_at(s, pat, j))
        by {
        assert(exists|x: int|
            match_at(s, pat, x) && forall|j: int| 0 <= j < x ==> !match_at(s, pat, j));
    }
    if w < i {
        assert(!match_at(s, pat, w));
    }
    if w > i {
        assert(!match_at(s, pat, i));
    }
}

/// Tests whether `pat` occurs in `s` at exactly index `at`.
pub fn match_at_idx(s: &str, pat: &str, at: usize) -> (r: bool)
    requires
        at <= s@.len(),
    ensures
        r == match_at(s@, pat@, at as int),
{
    let n = s.unicode_len();
    let m = pat.unicode_len();
    if m > n - at {
        return false;
    }
    let mut j: usize = 0;
    while j < m
        invariant
            n == s@.len(),
            m == pat@.len(),
            at + m <= n,
            j <= m,
            forall|k: int| 0 <= k < j ==> s@[at + k] == pat@[k],
        decreases m - j,
    {
        if s.get_char(at + j) != pat.get_char(j) {
            assert(!match_at(s@, pat@, at as int));
            return false;
        }
        j += 1;
    }
    true
}

/// `s` with every leading repetition of `pat` removed.
pub open spec fn strip_prefix_rep(s: Seq<char>, pat: Seq<char>) -> Seq<char>
    decreases s.len(),
{
    if pat.len() > 0 && starts_with(s, pat) {
        strip_prefix_rep(s.skip(pat.len() as int), pat)
    } else {
        s
    }
}

/// Offset of the first character of `s` past every leading repetition of
/// `pat`.
pub fn strip_prefix_rep_offset(s: &str, pat: &str) -> (r: usize)
    ensures
        r <= s@.len(),
        s@.skip(r as int) == strip_prefix_rep(s@, pat@),
{
    let n = s.unicode_len();
    let m = pat.unicode_len();
    proof {
        assert(s@.skip(0) =~= s@);
    }
    if m == 0 {
        return 0;
    }
    let mut a: usize = 0;
    while a <= n && match_at_idx(s, pat, a)
        invariant
            a <= n,
            n == s@.len(),
            m == pat@.len(),
            m > 0,
            strip_prefix_rep(s@, pat@) == strip_prefix_rep(s@.skip(a as int), pat@),
        decreases n - a,
    {
        proof {
            assert forall|k: int| 0 <= k < m implies s@.skip(a as int)[k] == pat@[k] by {
                assert(s@[a + k] == pat@[k]);
            }
            assert(starts_with(s@.skip(a as int), pat@));
            assert(s@.skip(a as int).skip(m as int) =~= s@.skip(a + m));
        }
        a += m;
    }
    proof {
        if starts_with(s@.skip(a as int), pat@) {
            assert forall|k: int| 0 <= k < m implies s@[a + k] == pat@[k] by {
                assert(s@.skip(a as int)[k] == pat@[k]);
            }
            assert(match_at(s@, pat@, a as int));
        }
        assert(!starts_with(s@.skip(a as int), pat@));
    }
    a
}

/// A character with the Unicode white-space property, the set the standard
/// library's trimming recognizes.
pub open spec fn is_space(c: char) -> bool {
    ||| c == ' '
    ||| c == '\t'
    ||| c == '\n'
    ||| c == '\r'
    ||| c == '\u{000b}'
    ||| c == '\u{000c}'
    ||| c == '\u{0085}'
    ||| c == '\u{00a0}'
    ||| c == '\u{1680}'
    ||| ('\u{2000}' <= c && c <= '\u{200a}')
    ||| c == '\u{2028}'
    ||| c == '\u{2029}'
    ||| c == '\u{202f}'
    ||| c == '\u{205f}'
    ||| c == '\u{3000}'
}

/// Executable form of `is_space`.
pub fn char_is_space(c: char) -> (r: bool)
    ensures
        r == is_space(c),
{
    c == ' ' || c == '\t' || c == '\n' || c == '\r' || c == '\u{000b}' || c == '\u{000c}'
        || c == '\u{0085}' || c == '\u{00a0}' || c == '\u{1680}' || ('\u{2000}' <= c && c
        <= '\u{200a}') || c == '\u{2028}' || c == '\u{2029}' || c == '\u{202f}' || c == '\u{205f}'
        || c == '\u{3000}'
}

/// `s` with leading white space removed.
pub open spec fn trim_start(s: Seq<char>) -> Seq<char>
    decreases s.len(),
{
    if s.len() > 0 && is_space(s[0]) {
        trim_start(s.skip(1))
    } else {
        s
    }
}

/// `s` with trailing white space removed.
pub open spec fn trim_end(s: Seq<char>) -> Seq<char>
    decreases s.len(),
{
    if s.len() > 0 && is_space(s[s.len() - 1]) {
        trim_end(s.take(s.len() - 1))
    } else {
        s
    }
}

/// `s` with white space removed from both ends.
pub open spec fn trim(s: Seq<char>) -> Seq<char> {
    trim_end(trim_start(s))
}

/// Trims white space from both ends of `s`.
pub fn trim_str(s: &str) -> (r: String)
    ensures
        r@ == trim(s@),
{
    let n = s.unicode_len();
    proof {
        assert(s@.skip(0) =~= s@);
    }
    let mut a: usize = 0;
    while a < n && char_is_space(s.get_char(a))
        invariant
            a <= n,
            n == s@.len(),
            trim_start(s@) == trim_start(s@.skip(a as int)),
        decreases n - a,
    {
        proof {
            assert(s@.skip(a as int).skip(1) =~= s@.skip(a + 1));
            assert(s@.skip(a as int)[0] == s@[a as int]);
        }
        a += 1;
    }
    proof {
        if a < n {
            assert(s@.skip(a as int)[0] == s@[a as int]);
        }
        assert(trim_start(s@) == s@.skip(a as int));
    }
    let ghost t = s@.skip(a as int);
    proof {
        assert(t.take(n - a) =~= t);
    }
    let mut b: usize = n;
    while b > a && char_is_space(s.get_char(b - 1))
        invariant
            a <= b <= n,
            n == s@.len(),
            t == s@.skip(a as int),
            trim_end(t) == trim_end(t.take(b - a)),
        decreases b,
    {
        proof {
            let k = b - a;
            assert(t.take(k)[k - 1] == s@[b - 1]);
            assert(t.take(k).take(k - 1) =~= t.take(k - 1));
        }
        b -= 1;
    }
    proof {
        let k = b - a;
        if b > a {
            assert(t.take(k)[k - 1] == s@[b - 1]);
        }
        assert(trim_end(t.take(k)) == t.take(k));
        assert(s@.subrange(a as int, b as int) =~= t.take(k));
    }
    s.substring_char(a, b).to_owned()
}

} // verus!
