//! Paths: slash-delimited, a trailing slash for a directory.

use crate::metadata::EntryMode;
use crate::text::{ends_with_slash, has_trailing_slash, push_char};
use vstd::prelude::*;

verus! {

/// What `str::trim` returns for a string: the string without the white space
/// at its start and at its end.
pub uninterp spec fn trimmed(s: Seq<char>) -> Seq<char>;

/// Removes the white space at both ends. Wraps `str::trim`.
#[verifier::external_body]
fn trim(s: &str) -> (r: &str)
    ensures
        r@ == trimmed(s@),
{
    s.trim()
}

/// `s` without the slashes at its start and with every run of slashes cut to
/// one.
pub open spec fn collapse(s: Seq<char>) -> Seq<char>
    decreases s.len(),
{
    if s.len() == 0 {
        Seq::empty()
    } else {
        let head = collapse(s.drop_last());
        if s.last() == '/' && (head.len() == 0 || head.last() == '/') {
            head
        } else {
            head.push(s.last())
        }
    }
}

/// The normal form of a path: trimmed, without leading slashes and repeated
/// slashes, and `/` where nothing is left.
pub open spec fn normalized(path: Seq<char>) -> Seq<char> {
    normalized_trimmed(trimmed(path))
}

/// Whether a path has the form that its mode asks for: a directory ends in a
/// slash, a file does not.
pub open spec fn valid_path(path: Seq<char>, mode: EntryMode) -> bool {
    match mode {
        EntryMode::FILE => !ends_with_slash(path),
        EntryMode::DIR => ends_with_slash(path),
        EntryMode::Unknown => false,
    }
}

/// Removes the slashes at the start and cuts every run of slashes to one.
pub fn collapse_slashes(s: &str) -> (r: String)
    ensures
        r@ == collapse(s@),
{
    let n = s.unicode_len();
    let mut out = String::new();
    let mut last_is_slash = true;
    let mut i: usize = 0;
    proof {
        assert(s@.take(0) =~= Seq::<char>::empty());
    }
    while i < n
        invariant
            n == s@.len(),
            i <= n,
            out@ == collapse(s@.take(i as int)),
            last_is_slash == (out@.len() == 0 || out@.last() == '/'),
        decreases n - i,
    {
        let c = s.get_char(i);
        proof {
            assert(s@.take(i + 1).drop_last() =~= s@.take(i as int));
            assert(s@.take(i + 1).last() == c);
        }
        if !(c == '/' && last_is_slash) {
            push_char(&mut out, c);
            last_is_slash = c == '/';
        }
        i += 1;
    }
    proof {
        assert(s@.take(n as int) =~= s@);
    }
    out
}

/// The normal form of a path that is trimmed already.
pub open spec fn normalized_trimmed(path: Seq<char>) -> Seq<char> {
    let c = collapse(path);
    if c.len() == 0 {
        "/"@
    } else {
        c
    }
}

/// Brings a path that is trimmed already into its normal form.
pub fn normalize_trimmed(path: &str) -> (r: String)
    ensures
        r@ == normalized_trimmed(path@),
{
    let out = collapse_slashes(path);
    if out.as_str().is_empty() {
        "/".to_owned()
    } else {
        out
    }
}

/// Brings a path into its normal form.
pub fn normalize_path(path: &str) -> (r: String)
    ensures
        r@ == normalized(path@),
{
    normalize_trimmed(trim(path))
}

/// Whether a path has the form that its mode asks for.
pub fn validate_path(path: &str, mode: EntryMode) -> (r: bool)
    ensures
        r == valid_path(path@, mode),
{
    match mode {
        EntryMode::FILE => !has_trailing_slash(path),
        EntryMode::DIR => has_trailing_slash(path),
        EntryMode::Unknown => false,
    }
}

} // verus!
