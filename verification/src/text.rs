//! Verified text utilities for label synthesis: character extraction,
//! substring search, quote location, blank detection and ASCII
//! case-insensitive comparison.

use vstd::prelude::*;
use vstd::string::StrSliceExecFns;

verus! {

/// The characters of `s`, in order.
pub fn chars_vec(s: &str) -> (r: Vec<char>)
    ensures
        r@ == s@,
{
    let n = s.unicode_len();
    let mut r: Vec<char> = Vec::new();
    let mut i: usize = 0;
    while i < n
        invariant
            n == s@.len(),
            i <= n,
            r@ == s@.take(i as int),
        decreases n - i,
    {
        let c = s.get_char(i);
        r.push(c);
        proof {
            assert(r@ =~= s@.take(i + 1));
        }
        i = i + 1;
    }
    proof {
        assert(s@.take(n as int) =~= s@);
    }
    r
}

/// True when `s` holds the character `c` somewhere.
pub open spec fn contains_char(s: Seq<char>, c: char) -> bool {
    exists|i: int| 0 <= i < s.len() && s[i] == c
}

/// Index of the leftmost occurrence of `c` in `s`, or -1 when absent.
pub open spec fn first_char_idx(s: Seq<char>, c: char) -> int
    decreases s,
{
    if s.len() == 0 {
        -1
    } else if s[0] == c {
        0
    } else {
        let r = first_char_idx(s.drop_first(), c);
        if r < 0 {
            -1
        } else {
            r + 1
        }
    }
}

/// Index of the rightmost occurrence of `c` in `s`, or -1 when absent.
pub open spec fn last_char_idx(s: Seq<char>, c: char) -> int
    decreases s,
{
    if s.len() == 0 {
        -1
    } else if s[s.len() - 1] == c {
        s.len() - 1
    } else {
        last_char_idx(s.drop_last(), c)
    }
}

/// What `first_char_idx` returns: -1 exactly when `c` is absent, and
/// otherwise the least index carrying it.
pub proof fn lemma_first_char_idx(s: Seq<char>, c: char)
    ensures
        first_char_idx(s, c) >= -1,
        first_char_idx(s, c) == -1 <==> !contains_char(s, c),
        first_char_idx(s, c) >= 0 ==> {
            let r = first_char_idx(s, c);
            &&& 0 <= r < s.len()
            &&& s[r] == c
            &&& forall|j: int| 0 <= j < r ==> s[j] != c
        },
    decreases s.len(),
{
    if s.len() == 0 {
    } else if s[0] == c {
        assert(contains_char(s, c));
    } else {
        lemma_first_char_idx(s.drop_first(), c);
        let rest = s.drop_first();
        let r = first_char_idx(rest, c);
        if r == -1 {
            assert(!contains_char(s, c)) by {
                assert(forall|i: int| 0 < i < s.len() ==> s[i] == rest[i - 1] && #[trigger] s[i] != c);
            }
        } else {
            assert(s[r + 1] == rest[r]);
            assert(contains_char(s, c));
            assert(forall|j: int| 0 < j < r + 1 ==> #[trigger] s[j] == rest[j - 1]);
        }
        if contains_char(s, c) {
            let w = choose|i: int| 0 <= i < s.len() && s[i] == c;
            assert(w > 0);
            assert(rest[w - 1] == c);
            assert(contains_char(rest, c));
        }
    }
}

/// What `last_char_idx` returns: -1 exactly when `c` is absent, and
/// otherwise the greatest index carrying it.
pub proof fn lemma_last_char_idx(s: Seq<char>, c: char)
    ensures
        last_char_idx(s, c) >= -1,
        last_char_idx(s, c) == -1 <==> !contains_char(s, c),
        last_char_idx(s, c) >= 0 ==> {
            let r = last_char_idx(s, c);
            &&& 0 <= r < s.len()
            &&& s[r] == c
            &&& forall|j: int| r < j < s.len() ==> s[j] != c
        },
    decreases s.len(),
{
    if s.len() == 0 {
    } else if s[s.len() - 1] == c {
        assert(contains_char(s, c));
    } else {
        lemma_last_char_idx(s.drop_last(), c);
        let rest = s.drop_last();
        let r = last_char_idx(rest, c);
        assert(forall|j: int| 0 <= j < s.len() - 1 ==> s[j] == rest[j]);
        if r == -1 {
            assert(!contains_char(s, c)) by {
                assert(forall|i: int|
                    0 <= i < s.len() - 1 ==> s[i] == rest[i] && #[trigger] s[i] != c);
            }
        } else {
            assert(s[r] == rest[r]);
            assert(contains_char(s, c));
        }
        if contains_char(s, c) {
            let w = choose|i: int| 0 <= i < s.len() && s[i] == c;
            assert(w < s.len() - 1);
            assert(rest[w] == c);
            assert(contains_char(rest, c));
        }
    }
}

/// Leftmost occurrence of `c` in `v`, if any.
pub fn find_first(v: &Vec<char>, c: char) -> (r: Option<usize>)
    ensures
        match r {
            Some(i) => first_char_idx(v@, c) == i as int,
            None => first_char_idx(v@, c) == -1,
        },
{
    proof {
        lemma_first_char_idx(v@, c);
    }
    let mut i: usize = 0;
    while i < v.len()
        invariant
            i <= v@.len(),
            forall|j: int| 0 <= j < i ==> v@[j] != c,
        decreases v@.len() - i,
    {
        if v[i] == c {
            proof {
                lemma_first_char_idx(v@, c);
                assert(contains_char(v@, c));
            }
            return Some(i);
        }
        i = i + 1;
    }
    proof {
        assert(!contains_char(v@, c));
    }
    None
}

/// Rightmost occurrence of `c` in `v`, if any.
pub fn find_last(v: &Vec<char>, c: char) -> (r: Option<usize>)
    ensures
        match r {
            Some(i) => last_char_idx(v@, c) == i as int,
            None => last_char_idx(v@, c) == -1,
        },
{
    proof {
        lemma_last_char_idx(v@, c);
    }
    let mut i: usize = v.len();
    while i > 0
        invariant
            i <= v@.len(),
            forall|j: int| i <= j < v@.len() ==> v@[j] != c,
        decreases i,
    {
        i = i - 1;
        if v[i] == c {
            proof {
                lemma_last_char_idx(v@, c);
                assert(contains_char(v@, c));
            }
            return Some(i);
        }
    }
    proof {
        assert(!contains_char(v@, c));
    }
    None
}

/// True when `p` occurs in `s` as a contiguous run.
pub open spec fn contains_seq(s: Seq<char>, p: Seq<char>) -> bool {
    exists|i: int|
        0 <= i && i + p.len() <= s.len() && #[trigger] s.subrange(i, i + p.len() as int) == p
}

/// True when the characters of `needle` occur contiguously in `hay`.
pub fn contains_str(hay: &Vec<char>, needle: &str) -> (r: bool)
    ensures
        r == contains_seq(hay@, needle@),
{
    let nv = chars_vec(needle);
    let plen = nv.len();
    if plen == 0 {
        proof {
            assert(hay@.subrange(0, 0) =~= needle@);
            assert(contains_seq(hay@, needle@)) by {
                assert(0 <= 0 && 0 + needle@.len() <= hay@.len() && hay@.subrange(
                    0,
                    0 + needle@.len() as int,
                ) == needle@);
            }
        }
        return true;
    }
    let hlen = hay.len();
    if hlen < plen {
        return false;
    }
    let last_start = hlen - plen;
    let mut i: usize = 0;
    while i <= last_start
        invariant
            nv@ == needle@,
            plen == nv@.len(),
            plen >= 1,
            hlen == hay@.len(),
            plen <= hlen,
            last_start == hlen - plen,
            i <= last_start + 1,
            forall|j: int| 0 <= j < i ==> #[trigger] hay@.subrange(j, j + plen as int) != needle@,
        decreases last_start + 1 - i,
    {
        let mut k: usize = 0;
        let mut matched = true;
        while k < plen
            invariant
                nv@ == needle@,
                plen == nv@.len(),
                hlen == hay@.len(),
                i + plen <= hlen,
                k <= plen,
                matched ==> forall|m: int| 0 <= m < k ==> hay@[i + m] == needle@[m],
                !matched ==> hay@.subrange(i as int, i + plen as int) != needle@,
            decreases plen - k,
        {
            if hay[i + k] != nv[k] {
                proof {
                    assert(hay@.subrange(i as int, i + plen as int)[k as int] != needle@[k as int]);
                }
                matched = false;
                k = plen;
            } else {
                k = k + 1;
            }
        }
        if matched {
            proof {
                assert(hay@.subrange(i as int, i + plen as int) =~= needle@);
                assert(contains_seq(hay@, needle@)) by {
                    assert(0 <= i as int && i as int + needle@.len() <= hay@.len()
                        && hay@.subrange(i as int, i as int + needle@.len() as int) == needle@);
                }
            }
            return true;
        }
        i = i + 1;
    }
    proof {
        assert(forall|j: int|
            0 <= j && j + needle@.len() <= hay@.len() ==> j < i && #[trigger] hay@.subrange(
                j,
                j + needle@.len() as int,
            ) != needle@);
    }
    false
}

/// True when `c` is a whitespace character: the Unicode White_Space set,
/// as `char::is_whitespace` and `str::trim` recognize it.
pub open spec fn is_space(c: char) -> bool {
    let u = c as u32;
    ||| u == 0x09
    ||| u == 0x0a
    ||| u == 0x0b
    ||| u == 0x0c
    ||| u == 0x0d
    ||| u == 0x20
    ||| u == 0x85
    ||| u == 0xa0
    ||| u == 0x1680
    ||| (0x2000 <= u && u <= 0x200a)
    ||| u == 0x2028
    ||| u == 0x2029
    ||| u == 0x202f
    ||| u == 0x205f
    ||| u == 0x3000
}

/// True when `s` holds nothing but whitespace: what `str::trim` would
/// reduce to the empty string.
pub open spec fn is_blank(s: Seq<char>) -> bool {
    forall|i: int| 0 <= i < s.len() ==> is_space(#[trigger] s[i])
}

/// True when the text holds nothing but whitespace.
pub fn text_is_blank(v: &Vec<char>) -> (r: bool)
    ensures
        r == is_blank(v@),
{
    let mut i: usize = 0;
    while i < v.len()
        invariant
            i <= v@.len(),
            forall|j: int| 0 <= j < i ==> is_space(#[trigger] v@[j]),
        decreases v@.len() - i,
    {
        let u = v[i] as u32;
        let ws = u == 0x09 || u == 0x0a || u == 0x0b || u == 0x0c || u == 0x0d || u == 0x20
            || u == 0x85 || u == 0xa0 || u == 0x1680 || (0x2000 <= u && u <= 0x200a)
            || u == 0x2028 || u == 0x2029 || u == 0x202f || u == 0x205f || u == 0x3000;
        if !ws {
            return false;
        }
        proof {
            assert(is_space(v@[i as int]));
        }
        i = i + 1;
    }
    true
}

/// The code point used for ASCII case-insensitive comparison: upper-case
/// ASCII letters are folded onto their lower-case forms.
pub open spec fn fold_code(c: char) -> int {
    if 65 <= c as u32 <= 90 {
        c as u32 + 32
    } else {
        c as u32 as int
    }
}

/// True when the two texts agree up to ASCII letter case.
pub open spec fn eq_ignore_case(a: Seq<char>, b: Seq<char>) -> bool {
    a.len() == b.len() && forall|i: int|
        0 <= i < a.len() ==> fold_code(#[trigger] a[i]) == fold_code(b[i])
}

/// Compares two texts ignoring ASCII letter case.
pub fn chars_eq_ignore_case(a: &Vec<char>, b: &Vec<char>) -> (r: bool)
    ensures
        r == eq_ignore_case(a@, b@),
{
    if a.len() != b.len() {
        return false;
    }
    let mut i: usize = 0;
    while i < a.len()
        invariant
            a@.len() == b@.len(),
            i <= a@.len(),
            forall|j: int| 0 <= j < i ==> fold_code(#[trigger] a@[j]) == fold_code(b@[j]),
        decreases a@.len() - i,
    {
        let ca = a[i] as u32;
        let cb = b[i] as u32;
        let fa = if 65 <= ca && ca <= 90 {
            ca + 32
        } else {
            ca
        };
        let fb = if 65 <= cb && cb <= 90 {
            cb + 32
        } else {
            cb
        };
        if fa != fb {
            return false;
        }
        proof {
            assert(fold_code(a@[i as int]) == fa as int && fold_code(b@[i as int]) == fb as int);
        }
        i = i + 1;
    }
    true
}

} // verus!
