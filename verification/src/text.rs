//! Character-level access to strings.
//!
//! The tokenizer and the value model work on `Vec<char>` internally;
//! these helpers move between that representation and `String`.

use vstd::prelude::*;

verus! {

/// Relies on `str::chars` and `Vec`'s `FromIterator`: yields exactly
/// the characters of `s`, in order.
#[verifier::external_body]
pub(crate) fn chars_of(s: &str) -> (v: Vec<char>)
    ensures
        v@ == s@,
{
    s.chars().collect()
}

/// Relies on `String`'s `FromIterator<char>`: builds the string whose
/// characters are exactly those of `v`, in order.
#[verifier::external_body]
pub(crate) fn string_from_chars(v: &Vec<char>) -> (s: String)
    ensures
        s@ == v@,
{
    v.iter().collect()
}

/// Copies `chars[from..to]` into a fresh string.
pub(crate) fn chars_range_to_string(chars: &Vec<char>, from: usize, to: usize) -> (s: String)
    requires
        from <= to <= chars@.len(),
    ensures
        s@ == chars@.subrange(from as int, to as int),
{
    let mut piece: Vec<char> = Vec::new();
    let mut i: usize = from;
    while i < to
        invariant
            from <= i <= to <= chars@.len(),
            piece@ == chars@.subrange(from as int, i as int),
        decreases to - i,
    {
        piece.push(chars[i]);
        proof {
            assert(piece@ =~= chars@.subrange(from as int, (i + 1) as int));
        }
        i = i + 1;
    }
    string_from_chars(&piece)
}

/// The concatenation of two strings.
pub(crate) fn str_concat(a: &str, b: &str) -> (r: String)
    ensures
        r@ == a@ + b@,
{
    let mut v = chars_of(a);
    let w = chars_of(b);
    let mut i: usize = 0;
    while i < w.len()
        invariant
            i <= w@.len(),
            w@ == b@,
            v@ == a@ + w@.subrange(0, i as int),
        decreases w@.len() - i,
    {
        v.push(w[i]);
        proof {
            assert(v@ =~= a@ + w@.subrange(0, (i + 1) as int));
        }
        i = i + 1;
    }
    proof {
        assert(w@.subrange(0, w@.len() as int) =~= w@);
    }
    string_from_chars(&v)
}

} // verus!
