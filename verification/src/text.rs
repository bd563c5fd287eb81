//! Character-level text helpers shared by the settings codec and the
//! resolution parser: whitespace trimming, quote stripping, splitting at the
//! first occurrence of a separator, and decimal digit runs.

use vstd::prelude::*;

verus! {

/// The whitespace characters the settings format cares about.
pub open spec fn is_space(c: char) -> bool {
    c == ' ' || c == '\t' || c == '\r' || c == '\n'
}

pub fn is_space_char(c: char) -> (r: bool)
    ensures
        r == is_space(c),
{
    c == ' ' || c == '\t' || c == '\r' || c == '\n'
}

pub open spec fn is_digit(c: char) -> bool {
    '0' <= c && c <= '9'
}

pub fn is_digit_char(c: char) -> (r: bool)
    ensures
        r == is_digit(c),
{
    '0' <= c && c <= '9'
}

/// Numeric value of a decimal digit.
pub open spec fn digit_val(c: char) -> int {
    c as int - '0' as int
}

pub open spec fn all_digits(s: Seq<char>) -> bool {
    forall|i: int| 0 <= i < s.len() ==> is_digit(s[i])
}

/// Value of a run of decimal digits, most significant first.
pub open spec fn digits_val(s: Seq<char>) -> int
    decreases s.len(),
{
    if s.len() == 0 {
        0
    } else {
        digits_val(s.drop_last()) * 10 + digit_val(s.last())
    }
}

/// Split `t` at the first occurrence of `c`: the part before it and the
/// part after it, or nothing when `c` does not occur.
pub open spec fn split_at_first(t: Seq<char>, c: char) -> Option<(Seq<char>, Seq<char>)>
    decreases t.len(),
{
    if t.len() == 0 {
        Option::None
    } else if t[0] == c {
        Option::Some((Seq::empty(), t.skip(1)))
    } else {
        match split_at_first(t.skip(1), c) {
            Option::Some((before, after)) => Option::Some((seq![t[0]] + before, after)),
            Option::None => Option::None,
        }
    }
}

/// When `c` first occurs at index `i`, the split is the prefix before `i`
/// and the suffix after it.
pub proof fn lemma_split_at_first_found(t: Seq<char>, c: char, i: int)
    requires
        0 <= i < t.len(),
        t[i] == c,
        forall|j: int| 0 <= j < i ==> t[j] != c,
    ensures
        split_at_first(t, c) == Option::Some((t.take(i), t.skip(i + 1))),
    decreases i,
{
    if i == 0 {
        assert(t.take(0) =~= Seq::<char>::empty());
    } else {
        lemma_split_at_first_found(t.skip(1), c, i - 1);
        assert(t.skip(1).take(i - 1) =~= t.subrange(1, i));
        assert(t.skip(1).skip(i) =~= t.skip(i + 1));
        assert(seq![t[0]] + t.subrange(1, i) =~= t.take(i));
    }
}

/// When `c` does not occur in `t`, there is no split.
pub proof fn lemma_split_at_first_none(t: Seq<char>, c: char)
    requires
        forall|j: int| 0 <= j < t.len() ==> t[j] != c,
    ensures
        split_at_first(t, c) is None,
    decreases t.len(),
{
    if t.len() > 0 {
        lemma_split_at_first_none(t.skip(1), c);
    }
}

/// Index of the first occurrence of `c` in `s`, if any.
pub fn find_char(s: &str, c: char) -> (r: Option<usize>)
    ensures
        match r {
            Option::Some(i) => i < s@.len() && s@[i as int] == c && forall|j: int|
                0 <= j < i ==> s@[j] != c,
            Option::None => forall|j: int| 0 <= j < s@.len() ==> s@[j] != c,
        },
{
    let n = s.unicode_len();
    for i in 0..n
        invariant
            n == s@.len(),
            forall|j: int| 0 <= j < i ==> s@[j] != c,
    {
        if s.get_char(i) == c {
            return Some(i);
        }
    }
    None
}

pub open spec fn trim_left(t: Seq<char>) -> Seq<char>
    decreases t.len(),
{
    if t.len() > 0 && is_space(t[0]) {
        trim_left(t.skip(1))
    } else {
        t
    }
}

pub open spec fn trim_right(t: Seq<char>) -> Seq<char>
    decreases t.len(),
{
    if t.len() > 0 && is_space(t.last()) {
        trim_right(t.drop_last())
    } else {
        t
    }
}

/// Leading and trailing whitespace removed.
pub open spec fn trim_spec(t: Seq<char>) -> Seq<char> {
    trim_right(trim_left(t))
}

proof fn lemma_trim_left_skip(t: Seq<char>, k: int)
    requires
        0 <= k <= t.len(),
        forall|j: int| 0 <= j < k ==> is_space(t[j]),
        k < t.len() ==> !is_space(t[k]),
    ensures
        trim_left(t) == t.skip(k),
    decreases k,
{
    if k == 0 {
        assert(t.skip(0) =~= t);
    } else {
        lemma_trim_left_skip(t.skip(1), k - 1);
        assert(t.skip(1).skip(k - 1) =~= t.skip(k));
    }
}

proof fn lemma_trim_right_take(t: Seq<char>, k: int)
    requires
        0 <= k <= t.len(),
        forall|j: int| k <= j < t.len() ==> is_space(t[j]),
        k > 0 ==> !is_space(t[k - 1]),
    ensures
        trim_right(t) == t.take(k),
    decreases t.len(),
{
    if k == t.len() {
        if t.len() == 0 {
            assert(t.take(0) =~= t);
        } else {
            assert(t.take(k) =~= t);
        }
    } else {
        lemma_trim_right_take(t.drop_last(), k);
        assert(t.drop_last().take(k) =~= t.take(k));
    }
}

/// `trim_spec` computed on a string slice.
pub fn trim_str<'a>(s: &'a str) -> (r: &'a str)
    ensures
        r@ == trim_spec(s@),
{
    let n = s.unicode_len();
    let mut start: usize = 0;
    while start < n && is_space_char(s.get_char(start))
        invariant
            n == s@.len(),
            start <= n,
            forall|j: int| 0 <= j < start ==> is_space(s@[j]),
        decreases n - start,
    {
        start = start + 1;
    }
    proof {
        lemma_trim_left_skip(s@, start as int);
    }
    let mut end: usize = n;
    while end > start && is_space_char(s.get_char(end - 1))
        invariant
            n == s@.len(),
            start <= end <= n,
            forall|j: int| 0 <= j < start ==> is_space(s@[j]),
            forall|j: int| end <= j < n ==> is_space(s@[j]),
        decreases end,
    {
        end = end - 1;
    }
    let r = s.substring_char(start, end);
    proof {
        let rest = s@.skip(start as int);
        lemma_trim_right_take(rest, end - start);
        assert(rest.take(end - start) =~= s@.subrange(start as int, end as int));
    }
    r
}

/// One surrounding pair of double quotes removed: a leading quote if
/// present, and a trailing quote if one remains. Inner quotes stay.
pub open spec fn strip_quotes_spec(t: Seq<char>) -> Seq<char> {
    let a = if t.len() > 0 && t[0] == '"' {
        t.skip(1)
    } else {
        t
    };
    if a.len() > 0 && a.last() == '"' {
        a.drop_last()
    } else {
        a
    }
}

/// `strip_quotes_spec` computed on a string slice.
pub fn strip_quotes_str<'a>(s: &'a str) -> (r: &'a str)
    ensures
        r@ == strip_quotes_spec(s@),
{
    let n = s.unicode_len();
    let start: usize = if n > 0 && s.get_char(0) == '"' {
        1
    } else {
        0
    };
    let end: usize = if n > start && s.get_char(n - 1) == '"' {
        n - 1
    } else {
        n
    };
    let r = s.substring_char(start, end);
    proof {
        let a = if s@.len() > 0 && s@[0] == '"' {
            s@.skip(1)
        } else {
            s@
        };
        assert(a =~= s@.subrange(start as int, s@.len() as int));
        if a.len() > 0 && a.last() == '"' {
            assert(a.drop_last() =~= s@.subrange(start as int, end as int));
        } else {
            assert(a =~= s@.subrange(start as int, end as int));
        }
    }
    r
}

/// Character-wise string equality.
pub fn str_eq(a: &str, b: &str) -> (r: bool)
    ensures
        r == (a@ == b@),
{
    let n = a.unicode_len();
    if n != b.unicode_len() {
        return false;
    }
    for i in 0..n
        invariant
            n == a@.len(),
            n == b@.len(),
            forall|j: int| 0 <= j < i ==> a@[j] == b@[j],
    {
        if a.get_char(i) != b.get_char(i) {
            return false;
        }
    }
    proof {
        assert(a@ =~= b@);
    }
    true
}

} // verus!
