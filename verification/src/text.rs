//! Characters and strings: what the lexer and the parser ask of std.
use vstd::prelude::*;
use vstd::utf8::encode_utf8;

verus! {

/// Whether std counts `c` as numeric (`char::is_numeric`).
pub uninterp spec fn char_is_numeric(c: char) -> bool;

/// Whether std counts `c` as alphabetic (`char::is_alphabetic`).
pub uninterp spec fn char_is_alphabetic(c: char) -> bool;

/// Calls `char::is_numeric`, which tests for the Unicode general categories
/// of numbers; its result is named, not stated.
#[verifier::external_body]
pub fn is_numeric(c: char) -> (r: bool)
    ensures
        r == char_is_numeric(c),
{
    c.is_numeric()
}

/// Calls `char::is_alphabetic`, which tests for the Unicode `Alphabetic`
/// property; its result is named, not stated.
#[verifier::external_body]
pub fn is_alphabetic(c: char) -> (r: bool)
    ensures
        r == char_is_alphabetic(c),
{
    c.is_alphabetic()
}

/// The characters of `s`, in order.
pub fn str_chars(s: &str) -> (v: Vec<char>)
    ensures
        v@ == s@,
{
    broadcast use vstd::string::axiom_spec_iter;

    let mut v: Vec<char> = Vec::new();
    for c in it: s.chars()
        invariant
            v@ == it.seq().take(it.index() as int),
    {
        v.push(c);
        proof {
            assert(v@ =~= it.seq().take(it.index() as int + 1));
        }
    }
    proof {
        assert(v@ =~= s@);
    }
    v
}

/// The string made of the characters of `v`, in order (`String: FromIterator<char>`).
#[verifier::external_body]
pub fn string_from_chars(v: &Vec<char>) -> (s: String)
    ensures
        s@ == v@,
{
    v.iter().collect()
}

/// The number of bytes of the UTF-8 encoding of `s`: what `str::len` returns.
pub open spec fn byte_len(s: Seq<char>) -> nat {
    encode_utf8(s).len()
}

/// A character takes at most four bytes in UTF-8.
pub proof fn lemma_byte_len_bound(s: Seq<char>)
    ensures
        byte_len(s) <= 4 * s.len(),
        s.len() <= byte_len(s),
    decreases s.len(),
{
    if s.len() > 0 {
        lemma_byte_len_bound(s.drop_first());
    }
}

/// The byte length of `s`, where it is known to fit in a `usize`.
pub fn string_byte_len(s: &String) -> (n: usize)
    requires
        4 * s@.len() <= usize::MAX,
    ensures
        n == byte_len(s@),
{
    proof {
        lemma_byte_len_bound(s@);
    }
    s.as_str().len()
}

/// A `String` holding the characters of a literal.
pub fn owned(s: &str) -> (r: String)
    ensures
        r@ == s@,
{
    s.to_owned()
}

/// Whether `v` holds exactly the characters of `w`.
pub fn chars_eq_str(v: &Vec<char>, w: &str) -> (b: bool)
    ensures
        b == (v@ == w@),
{
    let n = w.unicode_len();
    if v.len() != n {
        return false;
    }
    let mut i: usize = 0;
    while i < n
        invariant
            n == w@.len(),
            v@.len() == n,
            0 <= i <= n,
            forall|k: int| 0 <= k < i ==> v@[k] == w@[k],
        decreases n - i,
    {
        if v[i] != w.get_char(i) {
            return false;
        }
        i = i + 1;
    }
    assert(v@ =~= w@);
    true
}

} // verus!
