//! Small verified string utilities — prefix, equality, containment and
//! last-token tests over the character view — shared by the completer and
//! the HTTP-verb parser.

use vstd::prelude::*;

verus! {

use vstd::string::StrSliceExecFns;

/// The character views of a sequence of strings.
pub open spec fn views_of(ss: Seq<String>) -> Seq<Seq<char>>
    decreases ss.len(),
{
    if ss.len() == 0 {
        Seq::empty()
    } else {
        views_of(ss.drop_last()).push(ss.last()@)
    }
}

pub proof fn lemma_views_of_push(ss: Seq<String>, x: String)
    ensures
        views_of(ss.push(x)) == views_of(ss).push(x@),
{
    assert(ss.push(x).drop_last() =~= ss);
}

/// `p` is an initial segment of `s`.
pub open spec fn is_prefix_of(p: Seq<char>, s: Seq<char>) -> bool {
    p.len() <= s.len() && s.subrange(0, p.len() as int) == p
}

/// Character-by-character prefix test.
pub fn str_starts_with(s: &str, prefix: &str) -> (r: bool)
    ensures
        r == is_prefix_of(prefix@, s@),
{
    let n = prefix.unicode_len();
    if n > s.unicode_len() {
        return false;
    }
    let mut i: usize = 0;
    while i < n
        invariant
            i <= n,
            n == prefix@.len(),
            n <= s@.len(),
            forall|k: int| 0 <= k < i ==> s@[k] == prefix@[k],
        decreases n - i,
    {
        if s.get_char(i) != prefix.get_char(i) {
            proof {
                if is_prefix_of(prefix@, s@) {
                    assert(s@.subrange(0, n as int)[i as int] == prefix@[i as int]);
                    assert(s@.subrange(0, n as int)[i as int] == s@[i as int]);
                }
            }
            return false;
        }
        i = i + 1;
    }
    proof {
        assert(s@.subrange(0, n as int) =~= prefix@);
    }
    true
}

/// Character-by-character equality of two string slices.
pub fn str_eq(a: &str, b: &str) -> (r: bool)
    ensures
        r == (a@ == b@),
{
    if a.unicode_len() != b.unicode_len() {
        return false;
    }
    let r = str_starts_with(a, b);
    proof {
        if is_prefix_of(b@, a@) {
            assert(a@.subrange(0, b@.len() as int) =~= a@);
        }
        if a@ == b@ {
            assert(a@.subrange(0, b@.len() as int) =~= b@);
        }
    }
    r
}

/// `p` occurs somewhere in `s` as a contiguous run of characters.
pub open spec fn contains_seq(s: Seq<char>, p: Seq<char>) -> bool {
    exists|i: int| 0 <= i && i + p.len() <= s.len() && #[trigger] s.subrange(i, i + p.len()) == p
}

/// Character-by-character substring search.
pub fn str_contains(s: &str, p: &str) -> (r: bool)
    ensures
        r == contains_seq(s@, p@),
{
    let n = s.unicode_len();
    let m = p.unicode_len();
    if m > n {
        return false;
    }
    if m == 0 {
        proof {
            assert(s@.subrange(0, 0 + p@.len() as int) =~= p@);
        }
        return true;
    }
    let mut i: usize = 0;
    while i <= n - m
        invariant
            n == s@.len(),
            m == p@.len(),
            1 <= m <= n,
            i <= n - m + 1,
            forall|w: int| 0 <= w < i ==> #[trigger] s@.subrange(w, w + p@.len()) != p@,
        decreases n - m - i + 1,
    {
        // Compare the window starting at i with p, character by character.
        let mut k: usize = 0;
        let mut window_matches = true;
        while k < m
            invariant
                n == s@.len(),
                m == p@.len(),
                i + m <= n,
                k <= m,
                window_matches ==> forall|k2: int| 0 <= k2 < k ==> s@[i + k2] == p@[k2],
                !window_matches ==> s@.subrange(i as int, i + p@.len()) != p@,
            decreases m - k,
        {
            if s.get_char(i + k) != p.get_char(k) {
                proof {
                    assert(s@.subrange(i as int, i + p@.len())[k as int] == s@[i + k]);
                }
                window_matches = false;
            }
            k = k + 1;
        }
        if window_matches {
            proof {
                assert(s@.subrange(i as int, i + p@.len()) =~= p@);
            }
            return true;
        }
        i = i + 1;
    }
    false
}

/// The characters the shell treats as token separators (the ASCII
/// whitespace that can appear on a typed command line).
pub open spec fn is_space(c: char) -> bool {
    c == ' ' || c == '\t' || c == '\n' || c == '\r'
}

fn char_is_space(c: char) -> (r: bool)
    ensures
        r == is_space(c),
{
    c == ' ' || c == '\t' || c == '\n' || c == '\r'
}

/// The position just past the last non-space character; 0 if the whole
/// string is spaces.
pub open spec fn last_nonspace_end(s: Seq<char>) -> int
    decreases s.len(),
{
    if s.len() == 0 {
        0
    } else if is_space(s.last()) {
        last_nonspace_end(s.drop_last())
    } else {
        s.len() as int
    }
}

/// Scanning left from `e`, the position where the token containing
/// `s[e - 1]` begins: just past the nearest space, or 0.
pub open spec fn token_start_from(s: Seq<char>, e: int) -> int
    recommends
        0 <= e <= s.len(),
    decreases e,
{
    if e <= 0 {
        0
    } else if is_space(s[e - 1]) {
        e
    } else {
        token_start_from(s, e - 1)
    }
}

/// The last space-separated token of the line; empty if the line holds
/// only spaces.
pub open spec fn last_token(s: Seq<char>) -> Seq<char> {
    s.subrange(token_start_from(s, last_nonspace_end(s)), last_nonspace_end(s))
}

/// Returns the last space-separated token of the line.
pub fn last_token_of<'a>(s: &'a str) -> (r: &'a str)
    ensures
        r@ == last_token(s@),
{
    let n = s.unicode_len();
    let mut e: usize = n;
    proof {
        assert(s@.take(n as int) =~= s@);
    }
    while e > 0
        invariant_except_break
            e <= n,
            n == s@.len(),
            last_nonspace_end(s@.take(e as int)) == last_nonspace_end(s@),
        ensures
            e <= n,
            e == last_nonspace_end(s@),
        decreases e,
    {
        if !char_is_space(s.get_char(e - 1)) {
            proof {
                assert(s@.take(e as int).last() == s@[e - 1]);
            }
            break;
        }
        proof {
            assert(s@.take(e as int).drop_last() =~= s@.take(e - 1));
            assert(s@.take(e as int).last() == s@[e - 1]);
        }
        e = e - 1;
    }
    let mut a: usize = e;
    while a > 0
        invariant_except_break
            a <= e,
            e <= n,
            n == s@.len(),
            token_start_from(s@, a as int) == token_start_from(s@, e as int),
        ensures
            a <= e,
            a == token_start_from(s@, e as int),
        decreases a,
    {
        if char_is_space(s.get_char(a - 1)) {
            break;
        }
        a = a - 1;
    }
    s.substring_char(a, e)
}

} // verus!
