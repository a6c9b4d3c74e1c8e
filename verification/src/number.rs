//! Which texts read as floating-point numbers: the grammar that std documents
//! for parsing an `f64` from a string.
use vstd::prelude::*;

use crate::text::str_chars;

verus! {

pub open spec fn is_digit(c: char) -> bool {
    '0' <= c && c <= '9'
}

/// The first position at or after `i` that does not hold an ASCII digit.
pub open spec fn digit_run(s: Seq<char>, i: int) -> int
    decreases s.len() - i,
{
    if 0 <= i < s.len() && is_digit(s[i]) {
        digit_run(s, i + 1)
    } else {
        i
    }
}

pub open spec fn is_sign(c: char) -> bool {
    c == '+' || c == '-'
}

/// `Exp ::= ('e' | 'E') Sign? Digit+`, reaching the end of `s`.
pub open spec fn is_exponent(s: Seq<char>, i: int) -> bool {
    &&& 0 <= i < s.len()
    &&& (s[i] == 'e' || s[i] == 'E')
    &&& {
        let j = if i + 1 < s.len() && is_sign(s[i + 1]) {
            i + 2
        } else {
            i + 1
        };
        let k = digit_run(s, j);
        k > j && k == s.len()
    }
}

/// `Number ::= (Digit+ | Digit+ '.' Digit* | Digit* '.' Digit+) Exp?`, from `i`
/// to the end of `s`.
pub open spec fn is_decimal(s: Seq<char>, i: int) -> bool {
    let p = digit_run(s, i);
    if p < s.len() && s[p] == '.' {
        let q = digit_run(s, p + 1);
        (p - i) + (q - (p + 1)) > 0 && (q == s.len() || is_exponent(s, q))
    } else {
        p > i && (p == s.len() || is_exponent(s, p))
    }
}

pub open spec fn ascii_lower(c: char) -> char {
    if 'A' <= c && c <= 'Z' {
        (((c as u32) + 32) as u8) as char
    } else {
        c
    }
}

/// Whether `s` from `i` on reads, ignoring ASCII case, as `w` (given in lower case).
pub open spec fn is_word(s: Seq<char>, i: int, w: Seq<char>) -> bool {
    s.len() - i == w.len() && forall|k: int| 0 <= k < w.len() ==> ascii_lower(#[trigger] s[i + k]) == w[k]
}

/// `Float ::= Sign? ('inf' | 'infinity' | 'nan' | Number)`, ignoring the case
/// of letters: the texts from which std reads an `f64`.
pub open spec fn is_float_literal(s: Seq<char>) -> bool {
    let i: int = if s.len() > 0 && is_sign(s[0]) {
        1
    } else {
        0
    };
    is_word(s, i, seq!['i', 'n', 'f']) || is_word(s, i, seq!['i', 'n', 'f', 'i', 'n', 'i', 't', 'y'])
        || is_word(s, i, seq!['n', 'a', 'n']) || is_decimal(s, i)
}

fn digit_run_exec(s: &Vec<char>, i: usize) -> (r: usize)
    requires
        i <= s.len(),
    ensures
        r as int == digit_run(s@, i as int),
        i <= r <= s.len(),
{
    let mut k = i;
    while k < s.len() && '0' <= s[k] && s[k] <= '9'
        invariant
            i <= k <= s.len(),
            digit_run(s@, k as int) == digit_run(s@, i as int),
        decreases s.len() - k,
    {
        k = k + 1;
    }
    k
}

fn is_exponent_exec(s: &Vec<char>, i: usize) -> (b: bool)
    ensures
        b == is_exponent(s@, i as int),
{
    if i < s.len() && (s[i] == 'e' || s[i] == 'E') {
        let j = if i + 1 < s.len() && (s[i + 1] == '+' || s[i + 1] == '-') {
            i + 2
        } else {
            i + 1
        };
        let k = digit_run_exec(s, j);
        k > j && k == s.len()
    } else {
        false
    }
}

fn is_decimal_exec(s: &Vec<char>, i: usize) -> (b: bool)
    requires
        i <= s.len(),
    ensures
        b == is_decimal(s@, i as int),
{
    let p = digit_run_exec(s, i);
    if p < s.len() && s[p] == '.' {
        let q = digit_run_exec(s, p + 1);
        (p - i) + (q - (p + 1)) > 0 && (q == s.len() || is_exponent_exec(s, q))
    } else {
        p > i && (p == s.len() || is_exponent_exec(s, p))
    }
}

fn ascii_lower_exec(c: char) -> (r: char)
    ensures
        r == ascii_lower(c),
{
    if 'A' <= c && c <= 'Z' {
        (((c as u32) + 32) as u8) as char
    } else {
        c
    }
}

fn is_word_exec(s: &Vec<char>, i: usize, w: &Vec<char>) -> (b: bool)
    requires
        i <= s.len(),
    ensures
        b == is_word(s@, i as int, w@),
{
    if s.len() - i != w.len() {
        return false;
    }
    let mut k: usize = 0;
    while k < w.len()
        invariant
            s.len() - i == w.len(),
            i <= s.len(),
            0 <= k <= w.len(),
            forall|m: int| 0 <= m < k ==> ascii_lower(#[trigger] s@[i + m]) == w@[m],
        decreases w.len() - k,
    {
        if ascii_lower_exec(s[i + k]) != w[k] {
            assert(ascii_lower(s@[i + k as int]) != w@[k as int]);
            return false;
        }
        k = k + 1;
    }
    true
}

/// Whether the text `t` reads as a floating-point number.
pub fn is_float_text(t: &String) -> (b: bool)
    ensures
        b == is_float_literal(t@),
{
    let s = str_chars(t.as_str());
    let i: usize = if s.len() > 0 && (s[0] == '+' || s[0] == '-') {
        1
    } else {
        0
    };
    let inf = str_chars("inf");
    let infinity = str_chars("infinity");
    let nan = str_chars("nan");
    proof {
        reveal_strlit("inf");
        reveal_strlit("infinity");
        reveal_strlit("nan");
        assert(inf@ =~= seq!['i', 'n', 'f']);
        assert(infinity@ =~= seq!['i', 'n', 'f', 'i', 'n', 'i', 't', 'y']);
        assert(nan@ =~= seq!['n', 'a', 'n']);
    }
    is_word_exec(&s, i, &inf) || is_word_exec(&s, i, &infinity) || is_word_exec(&s, i, &nan)
        || is_decimal_exec(&s, i)
}

} // verus!
