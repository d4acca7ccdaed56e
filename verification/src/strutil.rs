//! Small verified string and byte utilities: decimal rendering, prefix and
//! substring search, ASCII lowercasing, byte concatenation.

use vstd::prelude::*;
use vstd::string::StrSliceExecFns;

verus! {

/// Relies on `String::push`: appends one character to the string.
#[verifier::external_body]
pub fn string_push(s: &mut String, c: char)
    ensures
        final(s)@ == old(s)@ + seq![c],
{
    s.push(c);
}

/// Append `src` to `dst`, byte for byte.
pub fn push_bytes(dst: &mut Vec<u8>, src: &[u8])
    ensures
        final(dst)@ == old(dst)@ + src@,
{
    let mut i: usize = 0;
    while i < src.len()
        invariant
            i <= src@.len(),
            dst@ == old(dst)@ + src@.subrange(0, i as int),
        decreases src@.len() - i,
    {
        dst.push(src[i]);
        proof {
            assert(old(dst)@ + src@.subrange(0, i + 1) =~= (old(dst)@ + src@.subrange(
                0,
                i as int,
            )).push(src@[i as int]));
        }
        i = i + 1;
    }
    proof {
        assert(src@.subrange(0, src@.len() as int) =~= src@);
    }
}

/// The decimal digit `d` as a character.
pub open spec fn digit_char(d: int) -> char {
    if d == 0 {
        '0'
    } else if d == 1 {
        '1'
    } else if d == 2 {
        '2'
    } else if d == 3 {
        '3'
    } else if d == 4 {
        '4'
    } else if d == 5 {
        '5'
    } else if d == 6 {
        '6'
    } else if d == 7 {
        '7'
    } else if d == 8 {
        '8'
    } else {
        '9'
    }
}

fn digit_char_exec(d: u8) -> (c: char)
    requires
        d < 10,
    ensures
        c == digit_char(d as int),
{
    match d {
        0 => '0',
        1 => '1',
        2 => '2',
        3 => '3',
        4 => '4',
        5 => '5',
        6 => '6',
        7 => '7',
        8 => '8',
        _ => '9',
    }
}

/// Decimal representation of a nonnegative integer, most significant digit
/// first, no leading zeroes (a lone zero for 0).
pub open spec fn dec_of(n: int) -> Seq<char>
    decreases n,
{
    if n < 10 {
        seq![digit_char(n)]
    } else {
        dec_of(n / 10).push(digit_char(n % 10))
    }
}

pub proof fn lemma_dec_of_len(n: int)
    ensures
        dec_of(n).len() >= 1,
    decreases n,
{
    if n >= 10 {
        lemma_dec_of_len(n / 10);
    }
}

/// Append the decimal representation of `n` to `s`.
pub fn push_dec_u128(s: &mut String, n: u128)
    ensures
        final(s)@ == old(s)@ + dec_of(n as int),
    decreases n,
{
    if n < 10 {
        string_push(s, digit_char_exec(n as u8));
    } else {
        push_dec_u128(s, n / 10);
        string_push(s, digit_char_exec((n % 10) as u8));
        proof {
            assert(old(s)@ + dec_of(n as int) =~= (old(s)@ + dec_of(n as int / 10)).push(
                digit_char(n as int % 10),
            ));
        }
    }
}

/// The decimal representation of `n`, as a fresh string.
pub fn dec_string_u128(n: u128) -> (r: String)
    ensures
        r@ == dec_of(n as int),
{
    let mut s = String::new();
    push_dec_u128(&mut s, n);
    proof {
        assert(Seq::<char>::empty() + dec_of(n as int) =~= dec_of(n as int));
    }
    s
}

/// The decimal representation of `n`, as a fresh string.
pub fn dec_string_u64(n: u64) -> (r: String)
    ensures
        r@ == dec_of(n as int),
{
    dec_string_u128(n as u128)
}

/// Six decimal digits of `n`, zero padded: the shape of a claim-link code.
pub open spec fn dec6_of(n: int) -> Seq<char> {
    seq![
        digit_char(n / 100000 % 10),
        digit_char(n / 10000 % 10),
        digit_char(n / 1000 % 10),
        digit_char(n / 100 % 10),
        digit_char(n / 10 % 10),
        digit_char(n % 10),
    ]
}

/// Render `n < 1_000_000` as a zero-padded six digit string.
pub fn dec6_string(n: u32) -> (r: String)
    requires
        n < 1000000,
    ensures
        r@ == dec6_of(n as int),
{
    let mut s = String::new();
    string_push(&mut s, digit_char_exec((n / 100000 % 10) as u8));
    string_push(&mut s, digit_char_exec((n / 10000 % 10) as u8));
    string_push(&mut s, digit_char_exec((n / 1000 % 10) as u8));
    string_push(&mut s, digit_char_exec((n / 100 % 10) as u8));
    string_push(&mut s, digit_char_exec((n / 10 % 10) as u8));
    string_push(&mut s, digit_char_exec((n % 10) as u8));
    proof {
        assert(s@ =~= dec6_of(n as int));
    }
    s
}

/// `p` occurs in `s` starting at position `k`.
pub open spec fn match_at(s: Seq<char>, p: Seq<char>, k: int) -> bool {
    &&& 0 <= k
    &&& k + p.len() <= s.len()
    &&& forall|i: int| 0 <= i < p.len() ==> s[k + i] == p[i]
}

/// `s` starts with `p`.
pub open spec fn spec_starts_with(s: Seq<char>, p: Seq<char>) -> bool {
    match_at(s, p, 0)
}

/// `p` occurs somewhere in `s`.
pub open spec fn spec_contains(s: Seq<char>, p: Seq<char>) -> bool {
    exists|k: int| match_at(s, p, k)
}

fn match_at_exec(s: &str, p: &str, k: usize) -> (r: bool)
    requires
        k + p@.len() <= s@.len(),
        s@.len() <= usize::MAX,
    ensures
        r == match_at(s@, p@, k as int),
{
    let plen = p.unicode_len();
    let mut i: usize = 0;
    while i < plen
        invariant
            i <= plen,
            plen == p@.len(),
            k + plen <= s@.len(),
            s@.len() <= usize::MAX,
            forall|j: int| 0 <= j < i ==> s@[k + j] == p@[j],
        decreases plen - i,
    {
        if s.get_char(k + i) != p.get_char(i) {
            return false;
        }
        i = i + 1;
    }
    true
}

/// Whether `s` starts with `p`.
pub fn str_starts_with(s: &str, p: &str) -> (r: bool)
    ensures
        r == spec_starts_with(s@, p@),
{
    let slen = s.unicode_len();
    let plen = p.unicode_len();
    if plen > slen {
        return false;
    }
    match_at_exec(s, p, 0)
}

/// Whether `p` occurs somewhere in `s`.
pub fn str_contains(s: &str, p: &str) -> (r: bool)
    ensures
        r == spec_contains(s@, p@),
{
    let slen = s.unicode_len();
    let plen = p.unicode_len();
    if plen > slen {
        return false;
    }
    let mut k: usize = 0;
    while k <= slen - plen
        invariant
            plen <= slen,
            slen == s@.len(),
            plen == p@.len(),
            k <= slen - plen + 1,
            forall|j: int| 0 <= j < k ==> !match_at(s@, p@, j),
        decreases slen - plen + 1 - k,
    {
        if match_at_exec(s, p, k) {
            return true;
        }
        k = k + 1;
    }
    proof {
        assert forall|j: int| !match_at(s@, p@, j) by {
            if 0 <= j < k {
            } else {
            }
        }
    }
    false
}

/// ASCII lowercase of one character; anything outside `A`..`Z` is unchanged.
pub open spec fn lower_char(c: char) -> char {
    if 'A' <= c && c <= 'Z' {
        (((c as u32) + 32) as u8) as char
    } else {
        c
    }
}

fn lower_char_exec(c: char) -> (r: char)
    ensures
        r == lower_char(c),
{
    if 'A' <= c && c <= 'Z' {
        (((c as u32) + 32) as u8) as char
    } else {
        c
    }
}

/// ASCII lowercase of a whole string.
pub open spec fn lower_of(s: Seq<char>) -> Seq<char> {
    s.map(|i: int, c: char| lower_char(c))
}

/// Lowercase `s`, character by character (ASCII range only).
pub fn to_ascii_lower(s: &str) -> (r: String)
    ensures
        r@ == lower_of(s@),
{
    let len = s.unicode_len();
    let mut out = String::new();
    let mut i: usize = 0;
    while i < len
        invariant
            i <= len,
            len == s@.len(),
            out@ == lower_of(s@.subrange(0, i as int)),
        decreases len - i,
    {
        let c = s.get_char(i);
        string_push(&mut out, lower_char_exec(c));
        proof {
            assert(lower_of(s@.subrange(0, i + 1)) =~= lower_of(s@.subrange(0, i as int)) + seq![
                lower_char(s@[i as int]),
            ]);
        }
        i = i + 1;
    }
    proof {
        assert(s@.subrange(0, s@.len() as int) =~= s@);
    }
    out
}

/// Whether two strings have the same characters.
pub fn str_eq(a: &str, b: &str) -> (r: bool)
    ensures
        r == (a@ == b@),
{
    let alen = a.unicode_len();
    let blen = b.unicode_len();
    if alen != blen {
        return false;
    }
    let mut i: usize = 0;
    while i < alen
        invariant
            i <= alen,
            alen == a@.len(),
            alen == b@.len(),
            forall|j: int| 0 <= j < i ==> a@[j] == b@[j],
        decreases alen - i,
    {
        if a.get_char(i) != b.get_char(i) {
            return false;
        }
        i = i + 1;
    }
    proof {
        assert(a@ =~= b@);
    }
    true
}

} // verus!
