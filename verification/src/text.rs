//! Small verified helpers on strings, seen as sequences of characters.

use vstd::prelude::*;
use vstd::string::StringExecFns;

verus! {

/// The ten decimal digits in order.
pub open spec fn digits() -> Seq<char> {
    seq!['0', '1', '2', '3', '4', '5', '6', '7', '8', '9']
}

/// `n` written in base ten without leading zeros.
pub open spec fn decimal_digits(n: nat) -> Seq<char>
    decreases n,
{
    if n < 10 {
        seq![digits()[n as int]]
    } else {
        decimal_digits(n / 10).push(digits()[(n % 10) as int])
    }
}

/// Whether `s` ends in a slash.
pub open spec fn ends_with_slash(s: Seq<char>) -> bool {
    s.len() > 0 && s.last() == '/'
}

/// The first index at or after `from` where `s` holds `c`, if there is one.
pub open spec fn first_index_of(s: Seq<char>, from: int, c: char) -> Option<int>
    decreases s.len() - from,
{
    if from < 0 || from >= s.len() {
        None
    } else if s[from] == c {
        Some(from)
    } else {
        first_index_of(s, from + 1, c)
    }
}

/// What `first_index_of` finds is in range, holds `c`, and nothing before it does.
pub proof fn lemma_first_index_of(s: Seq<char>, from: int, c: char)
    requires
        0 <= from,
    ensures
        match first_index_of(s, from, c) {
            Some(i) => from <= i < s.len() && s[i] == c && forall|j: int|
                from <= j < i ==> s[j] != c,
            None => forall|j: int| from <= j < s.len() ==> s[j] != c,
        },
    decreases s.len() - from,
{
    if from < s.len() && s[from] != c {
        lemma_first_index_of(s, from + 1, c);
    }
}

/// Appends one character. Wraps `String::push`, which adds the character at
/// the end and leaves the rest as it was.
#[verifier::external_body]
pub(crate) fn push_char(s: &mut String, c: char)
    ensures
        final(s)@ == old(s)@.push(c),
{
    s.push(c)
}

fn digit(d: u8) -> (c: char)
    requires
        d < 10,
    ensures
        c == digits()[d as int],
{
    if d == 0 {
        '0'
    } else if d == 1 {
        '1'
    } else if d == 2 {
        '2'
    } else if d == 3 {
        '3'
    } else if d == 4 {
        '4'
    } else if d == 5 {
        '5'
    } else if d == 6 {
        '6'
    } else if d == 7 {
        '7'
    } else if d == 8 {
        '8'
    } else {
        '9'
    }
}

/// Writes `n` in base ten.
pub fn decimal(n: u128) -> (s: String)
    ensures
        s@ == decimal_digits(n as nat),
{
    let mut rev: Vec<char> = Vec::new();
    let mut rest: u128 = n;
    // The digits still to come stand before those already taken, which `rev`
    // holds last digit first.
    while rest >= 10
        invariant
            decimal_digits(n as nat) == decimal_digits(rest as nat) + rev@.reverse(),
        decreases rest,
    {
        let d = (rest % 10) as u8;
        let ghost before = rev@;
        rev.push(digit(d));
        proof {
            let low = digits()[(rest % 10) as int];
            assert(rev@.reverse() =~= seq![low] + before.reverse());
            assert(decimal_digits(rest as nat) == decimal_digits((rest / 10) as nat).push(low));
            assert(decimal_digits((rest / 10) as nat).push(low) + before.reverse()
                =~= decimal_digits((rest / 10) as nat) + (seq![low] + before.reverse()));
        }
        rest = rest / 10;
    }
    let mut s = String::new();
    push_char(&mut s, digit(rest as u8));
    let mut i: usize = rev.len();
    while i > 0
        invariant
            i <= rev.len(),
            s@ == decimal_digits(rest as nat) + rev@.reverse().subrange(0, rev.len() - i),
        decreases i,
    {
        i -= 1;
        let ghost before = s@;
        push_char(&mut s, rev[i]);
        proof {
            let r = rev@.reverse();
            let k = rev.len() - i - 1;
            assert(r[k] == rev@[i as int]);
            assert(r.subrange(0, k + 1) =~= r.subrange(0, k).push(r[k]));
            assert(s@ =~= decimal_digits(rest as nat) + r.subrange(0, k + 1));
        }
    }
    proof {
        assert(rev@.reverse().subrange(0, rev.len() as int) =~= rev@.reverse());
    }
    s
}

/// Whether the string ends in a slash.
pub fn has_trailing_slash(s: &str) -> (r: bool)
    ensures
        r == ends_with_slash(s@),
{
    let n = s.unicode_len();
    n > 0 && s.get_char(n - 1) == '/'
}

/// Whether `prefix` is a prefix of `s`.
pub fn starts_with(s: &str, prefix: &str) -> (r: bool)
    ensures
        r == prefix@.is_prefix_of(s@),
{
    let n = s.unicode_len();
    let m = prefix.unicode_len();
    if m > n {
        return false;
    }
    let mut i: usize = 0;
    while i < m
        invariant
            n == s@.len(),
            m == prefix@.len(),
            m <= n,
            i <= m,
            forall|j: int| 0 <= j < i ==> s@[j] == prefix@[j],
        decreases m - i,
    {
        if s.get_char(i) != prefix.get_char(i) {
            proof {
                assert(!prefix@.is_prefix_of(s@)) by {
                    if prefix@.is_prefix_of(s@) {
                        assert(s@.subrange(0, m as int)[i as int] == prefix@[i as int]);
                    }
                }
            }
            return false;
        }
        i += 1;
    }
    proof {
        assert(s@.subrange(0, m as int) =~= prefix@);
    }
    true
}

/// The first index at or after `from` where `s` holds `c`.
pub fn find_char(s: &str, from: usize, c: char) -> (r: Option<usize>)
    ensures
        match r {
            Some(i) => first_index_of(s@, from as int, c) == Some(i as int) && i < usize::MAX,
            None => first_index_of(s@, from as int, c) is None,
        },
{
    let n = s.unicode_len();
    let mut i: usize = from;
    while i < n
        invariant
            n == s@.len(),
            from <= i,
            first_index_of(s@, from as int, c) == first_index_of(s@, i as int, c),
        decreases n - i,
    {
        if s.get_char(i) == c {
            return Some(i);
        }
        i += 1;
    }
    None
}

/// The first `n` characters of `s` as a string of their own.
pub fn take_chars(s: &str, n: usize) -> (r: String)
    requires
        n <= s@.len(),
    ensures
        r@ == s@.subrange(0, n as int),
{
    s.substring_char(0, n).to_owned()
}

/// `a` followed by `b`.
pub fn joined(a: &str, b: &str) -> (r: String)
    ensures
        r@ == a@ + b@,
{
    let mut r = a.to_owned();
    r.append(b);
    r
}

} // verus!

verus! {

/// Whether two strings hold the same characters.
pub fn same_text(a: &str, b: &str) -> (r: bool)
    ensures
        r == (a@ == b@),
{
    let n = a.unicode_len();
    if n != b.unicode_len() {
        return false;
    }
    let mut i: usize = 0;
    while i < n
        invariant
            n == a@.len(),
            n == b@.len(),
            i <= n,
            forall|j: int| 0 <= j < i ==> a@[j] == b@[j],
        decreases n - i,
    {
        if a.get_char(i) != b.get_char(i) {
            return false;
        }
        i += 1;
    }
    proof {
        assert(a@ =~= b@);
    }
    true
}

} // verus!
