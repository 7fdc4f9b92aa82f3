//! Character-level text primitives shared by the parser and the crawler:
//! trimming, searching, splitting and substring containment, each specified
//! over the `Seq<char>` view of a string.

use vstd::prelude::*;
use vstd::string::*;

verus! {

/// The whitespace characters recognized when trimming a field.
pub open spec fn is_ws(c: char) -> bool {
    c == ' ' || c == '\t' || c == '\n' || c == '\r' || c == '\u{b}' || c == '\u{c}'
}

/// Executable test for [`is_ws`].
pub fn char_is_ws(c: char) -> (b: bool)
    ensures
        b == is_ws(c),
{
    c == ' ' || c == '\t' || c == '\n' || c == '\r' || c == '\u{b}' || c == '\u{c}'
}

/// `s` with its leading whitespace removed.
pub open spec fn spec_trim_start(s: Seq<char>) -> Seq<char>
    decreases s.len(),
{
    if s.len() > 0 && is_ws(s[0]) {
        spec_trim_start(s.drop_first())
    } else {
        s
    }
}

/// `s` with its trailing whitespace removed.
pub open spec fn spec_trim_end(s: Seq<char>) -> Seq<char>
    decreases s.len(),
{
    if s.len() > 0 && is_ws(s.last()) {
        spec_trim_end(s.drop_last())
    } else {
        s
    }
}

/// `s` with leading and trailing whitespace removed.
pub open spec fn spec_trim(s: Seq<char>) -> Seq<char> {
    spec_trim_end(spec_trim_start(s))
}

/// If everything before `i` is whitespace and `i` is not, the start-trimmed
/// string is the tail from `i`.
pub proof fn lemma_trim_start_at(s: Seq<char>, i: int)
    requires
        0 <= i <= s.len(),
        forall|j: int| 0 <= j < i ==> is_ws(s[j]),
        i < s.len() ==> !is_ws(s[i]),
    ensures
        spec_trim_start(s) == s.subrange(i, s.len() as int),
    decreases i,
{
    if i == 0 {
        assert(s.subrange(0, s.len() as int) =~= s);
    } else {
        let t = s.drop_first();
        assert(forall|j: int| 0 <= j < i - 1 ==> is_ws(#[trigger] t[j]));
        lemma_trim_start_at(t, i - 1);
        assert(t.subrange(i - 1, t.len() as int) =~= s.subrange(i, s.len() as int));
    }
}

/// If everything from `j` on is whitespace and `j - 1` is not, the end-trimmed
/// string is the prefix up to `j`.
pub proof fn lemma_trim_end_at(s: Seq<char>, j: int)
    requires
        0 <= j <= s.len(),
        forall|m: int| j <= m < s.len() ==> is_ws(s[m]),
        j > 0 ==> !is_ws(s[j - 1]),
    ensures
        spec_trim_end(s) == s.subrange(0, j),
    decreases s.len() - j,
{
    if j == s.len() {
        assert(s.subrange(0, j) =~= s);
    } else {
        let t = s.drop_last();
        assert(forall|m: int| j <= m < t.len() ==> is_ws(#[trigger] t[m]));
        lemma_trim_end_at(t, j);
        assert(t.subrange(0, j) =~= s.subrange(0, j));
    }
}

/// `s.trim()`: the substring with leading and trailing whitespace removed.
pub fn trim_str<'a>(s: &'a str) -> (r: &'a str)
    ensures
        r@ == spec_trim(s@),
{
    let n = s.unicode_len();
    let mut i: usize = 0;
    while i < n && char_is_ws(s.get_char(i))
        invariant
            n == s@.len(),
            0 <= i <= n,
            forall|j: int| 0 <= j < i ==> is_ws(s@[j]),
        decreases n - i,
    {
        i = i + 1;
    }
    let mut j: usize = n;
    while j > i && char_is_ws(s.get_char(j - 1))
        invariant
            n == s@.len(),
            i <= j <= n,
            forall|m: int| j <= m < n ==> is_ws(s@[m]),
        decreases j,
    {
        j = j - 1;
    }
    let r = s.substring_char(i, j);
    proof {
        lemma_trim_start_at(s@, i as int);
        let t = s@.subrange(i as int, n as int);
        assert(forall|m: int| j - i <= m < t.len() ==> is_ws(#[trigger] t[m]));
        lemma_trim_end_at(t, j - i);
        assert(t.subrange(0, j - i) =~= s@.subrange(i as int, j as int));
    }
    r
}

/// The index of the first occurrence of `c` in `s`, if any.
pub open spec fn spec_find(s: Seq<char>, c: char) -> Option<int>
    decreases s.len(),
{
    if s.len() == 0 {
        None
    } else if s[0] == c {
        Some(0int)
    } else {
        match spec_find(s.drop_first(), c) {
            None => None,
            Some(i) => Some(i + 1),
        }
    }
}

/// [`spec_find`] returns the first occurrence: the found index holds `c` and
/// nothing before it does; `None` means `c` does not occur at all.
pub proof fn lemma_find_props(s: Seq<char>, c: char)
    ensures
        match spec_find(s, c) {
            Some(i) => 0 <= i < s.len() && s[i] == c && forall|j: int| 0 <= j < i ==> s[j] != c,
            None => forall|j: int| 0 <= j < s.len() ==> s[j] != c,
        },
    decreases s.len(),
{
    if s.len() == 0 {
    } else if s[0] == c {
    } else {
        let t = s.drop_first();
        lemma_find_props(t, c);
        match spec_find(t, c) {
            None => {
                assert forall|j: int| 0 <= j < s.len() implies s[j] != c by {
                    if j > 0 {
                        assert(t[j - 1] != c);
                    }
                }
            },
            Some(i) => {
                assert(s[i + 1] == t[i]);
                assert forall|j: int| 0 <= j < i + 1 implies s[j] != c by {
                    if j > 0 {
                        assert(t[j - 1] != c);
                    }
                }
            },
        }
    }
}

/// An index that holds `c` with no earlier occurrence is what [`spec_find`]
/// returns.
pub proof fn lemma_find_is(s: Seq<char>, c: char, i: int)
    requires
        0 <= i < s.len(),
        s[i] == c,
        forall|j: int| 0 <= j < i ==> s[j] != c,
    ensures
        spec_find(s, c) == Some(i),
{
    lemma_find_props(s, c);
    match spec_find(s, c) {
        None => {
            assert(s[i] != c);
        },
        Some(k) => {
            if k < i {
                assert(s[k] != c);
            } else if k > i {
                assert(s[i] != c);
            }
        },
    }
}

/// The index of the first occurrence of `c` in `s`, searching left to right.
pub fn find_char(s: &str, c: char) -> (r: Option<usize>)
    ensures
        match r {
            Some(i) => spec_find(s@, c) == Some(i as int),
            None => spec_find(s@, c) is None,
        },
{
    let n = s.unicode_len();
    let mut i: usize = 0;
    while i < n
        invariant
            n == s@.len(),
            0 <= i <= n,
            forall|j: int| 0 <= j < i ==> s@[j] != c,
        decreases n - i,
    {
        if s.get_char(i) == c {
            proof {
                lemma_find_is(s@, c, i as int);
            }
            return Some(i);
        }
        i = i + 1;
    }
    proof {
        lemma_find_props(s@, c);
    }
    None
}

/// The index of the first occurrence of `a` or `b` in `s`, if either occurs.
pub open spec fn spec_find_first_of(s: Seq<char>, a: char, b: char) -> Option<int> {
    match (spec_find(s, a), spec_find(s, b)) {
        (None, None) => None,
        (Some(i), None) => Some(i),
        (None, Some(j)) => Some(j),
        (Some(i), Some(j)) => Some(
            if i <= j {
                i
            } else {
                j
            },
        ),
    }
}

/// [`spec_find_first_of`] returns an in-range index holding `a` or `b`, with
/// neither occurring earlier; `None` means neither occurs.
pub proof fn lemma_find_first_of_props(s: Seq<char>, a: char, b: char)
    ensures
        match spec_find_first_of(s, a, b) {
            Some(i) => 0 <= i < s.len() && (s[i] == a || s[i] == b) && forall|j: int|
                0 <= j < i ==> s[j] != a && s[j] != b,
            None => forall|j: int| 0 <= j < s.len() ==> s[j] != a && s[j] != b,
        },
{
    lemma_find_props(s, a);
    lemma_find_props(s, b);
}

/// The first index holding `a` or `b` in a left-to-right scan.
pub fn find_first_of(s: &str, a: char, b: char) -> (r: Option<usize>)
    ensures
        match r {
            Some(i) => spec_find_first_of(s@, a, b) == Some(i as int),
            None => spec_find_first_of(s@, a, b) is None,
        },
{
    let n = s.unicode_len();
    let mut i: usize = 0;
    while i < n
        invariant
            n == s@.len(),
            0 <= i <= n,
            forall|j: int| 0 <= j < i ==> s@[j] != a && s@[j] != b,
        decreases n - i,
    {
        let c = s.get_char(i);
        if c == a || c == b {
            proof {
                if c == a {
                    lemma_find_is(s@, a, i as int);
                } else {
                    lemma_find_is(s@, b, i as int);
                }
                lemma_find_props(s@, a);
                lemma_find_props(s@, b);
            }
            return Some(i);
        }
        i = i + 1;
    }
    proof {
        lemma_find_props(s@, a);
        lemma_find_props(s@, b);
    }
    None
}

/// The two parts around the first occurrence of `c`, if `c` occurs.
pub open spec fn spec_split_once(s: Seq<char>, c: char) -> Option<(Seq<char>, Seq<char>)> {
    match spec_find(s, c) {
        None => None,
        Some(i) => Some((s.subrange(0, i), s.subrange(i + 1, s.len() as int))),
    }
}

/// `s.split_once(c)`: the parts before and after the first occurrence of `c`.
pub fn split_once_char<'a>(s: &'a str, c: char) -> (r: Option<(&'a str, &'a str)>)
    ensures
        match r {
            Some((a, b)) => spec_split_once(s@, c) == Some((a@, b@)),
            None => spec_split_once(s@, c) is None,
        },
{
    match find_char(s, c) {
        None => None,
        Some(i) => {
            proof {
                lemma_find_props(s@, c);
            }
            let n = s.unicode_len();
            let a = s.substring_char(0, i);
            let b = s.substring_char(i + 1, n);
            Some((a, b))
        },
    }
}

/// Whether `s` and `t` hold the same characters.
pub fn str_eq(s: &str, t: &str) -> (r: bool)
    ensures
        r == (s@ == t@),
{
    let n = s.unicode_len();
    let m = t.unicode_len();
    if n != m {
        return false;
    }
    let mut i: usize = 0;
    while i < n
        invariant
            n == s@.len(),
            n == t@.len(),
            0 <= i <= n,
            forall|j: int| 0 <= j < i ==> s@[j] == t@[j],
        decreases n - i,
    {
        if s.get_char(i) != t.get_char(i) {
            return false;
        }
        i = i + 1;
    }
    proof {
        assert(s@ =~= t@);
    }
    true
}

/// The pieces of `s` between occurrences of `'\n'`; an empty piece stands
/// between adjacent separators, and one stands after a trailing separator.
pub open spec fn spec_split_lines(s: Seq<char>) -> Seq<Seq<char>>
    decreases s.len(),
    via spec_split_lines_dec
{
    match spec_find(s, '\n') {
        None => seq![s],
        Some(i) => seq![s.subrange(0, i)] + spec_split_lines(s.subrange(i + 1, s.len() as int)),
    }
}

#[via_fn]
proof fn spec_split_lines_dec(s: Seq<char>) {
    lemma_find_props(s, '\n');
}

/// `s.split('\n')`, collected: every piece, in order, separators dropped.
pub fn split_newline<'a>(s: &'a str) -> (r: Vec<&'a str>)
    ensures
        r.deep_view() == spec_split_lines(s@),
    decreases s@.len(),
{
    match find_char(s, '\n') {
        None => {
            let mut v: Vec<&'a str> = Vec::new();
            v.push(s);
            proof {
                assert(v.deep_view() =~= seq![s@]);
            }
            v
        },
        Some(i) => {
            proof {
                lemma_find_props(s@, '\n');
            }
            let n = s.unicode_len();
            let head = s.substring_char(0, i);
            let tail = s.substring_char(i + 1, n);
            let mut rest = split_newline(tail);
            let mut v: Vec<&'a str> = Vec::new();
            v.push(head);
            v.append(&mut rest);
            proof {
                assert(v.deep_view() =~= spec_split_lines(s@));
            }
            v
        },
    }
}

/// Whether `sub` occurs in `s` as a contiguous substring.
pub open spec fn spec_contains(s: Seq<char>, sub: Seq<char>) -> bool {
    exists|i: int|
        0 <= i && i + sub.len() <= s.len() && #[trigger] s.subrange(i, i + sub.len() as int)
            == sub
}

/// `s.contains(sub)`: whether `sub` occurs in `s` as a contiguous substring.
pub fn contains_str(s: &str, sub: &str) -> (r: bool)
    ensures
        r == spec_contains(s@, sub@),
{
    let n = s.unicode_len();
    let m = sub.unicode_len();
    if m > n {
        proof {
            assert(!spec_contains(s@, sub@));
        }
        return false;
    }
    if m == 0 {
        proof {
            assert(s@.subrange(0, 0 + sub@.len() as int) =~= sub@);
        }
        return true;
    }
    let mut i: usize = 0;
    while i <= n - m
        invariant
            n == s@.len(),
            m == sub@.len(),
            0 < m <= n,
            0 <= i <= n - m + 1,
            forall|k: int|
                0 <= k < i ==> #[trigger] s@.subrange(k, k + sub@.len() as int) != sub@,
        decreases n - i,
    {
        let mut j: usize = 0;
        let mut mismatch = false;
        while j < m
            invariant
                n == s@.len(),
                m == sub@.len(),
                0 <= i <= n - m,
                0 <= j <= m,
                !mismatch ==> forall|k: int| 0 <= k < j ==> s@[i + k] == sub@[k],
                mismatch ==> s@.subrange(i as int, i + sub@.len() as int) != sub@,
            decreases m - j,
        {
            if s.get_char(i + j) != sub.get_char(j) {
                proof {
                    assert(s@.subrange(i as int, i + sub@.len() as int)[j as int] == s@[i + j]);
                }
                mismatch = true;
                j = m;
            } else {
                j = j + 1;
            }
        }
        if !mismatch {
            proof {
                assert(s@.subrange(i as int, i + sub@.len() as int) =~= sub@);
            }
            return true;
        }
        i = i + 1;
    }
    proof {
        assert forall|k: int|
            !(0 <= k && k + sub@.len() <= s@.len() && #[trigger] s@.subrange(
                k,
                k + sub@.len() as int,
            ) == sub@) by {
            if 0 <= k && k + sub@.len() <= s@.len() {
                assert(k < i);
            }
        }
    }
    false
}

} // verus!
