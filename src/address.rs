//! Canonical form of on-chain account addresses.

use vstd::prelude::*;
use vstd::string::*;

verus! {

pub open spec fn is_ascii_upper(c: char) -> bool {
    'A' <= c && c <= 'Z'
}

/// ASCII lower case of one character; every other character is kept.
pub open spec fn ascii_lower_char(c: char) -> char {
    if is_ascii_upper(c) {
        ((c as u32) + 32) as char
    } else {
        c
    }
}

pub open spec fn ascii_lowercase_of(s: Seq<char>) -> Seq<char> {
    s.map_values(|c: char| ascii_lower_char(c))
}

/// The text of an address without its optional `0x` prefix.
pub open spec fn strip_hex_prefix(s: Seq<char>) -> Seq<char> {
    if s.len() >= 2 && s[0] == '0' && s[1] == 'x' {
        s.subrange(2, s.len() as int)
    } else {
        s
    }
}

/// The canonical form: `0x`, then the lower-cased body left-padded with `0`
/// to 64 digits (a longer body is kept whole).
pub open spec fn normalize(s: Seq<char>) -> Seq<char> {
    let body = ascii_lowercase_of(strip_hex_prefix(s));
    let pad: nat = if body.len() < 64 { (64 - body.len()) as nat } else { 0 };
    seq!['0', 'x'] + Seq::new(pad, |i: int| '0') + body
}

/// A canonical address is its own canonical form, so comparing canonical
/// forms is stable however often an address is normalized.
pub proof fn lemma_normalize_idempotent(s: Seq<char>)
    ensures
        normalize(normalize(s)) == normalize(s),
{
    let body = ascii_lowercase_of(strip_hex_prefix(s));
    let pad: nat = if body.len() < 64 { (64 - body.len()) as nat } else { 0 };
    let b = Seq::new(pad, |i: int| '0') + body;
    let n = normalize(s);
    assert(n =~= seq!['0', 'x'] + b);
    assert(strip_hex_prefix(n) =~= b);
    assert(ascii_lowercase_of(b) =~= b);
    assert(Seq::new(0, |i: int| '0') + b =~= b);
    assert(normalize(n) =~= n);
}

/// Relies on str::to_ascii_lowercase: each ASCII letter `A`..`Z` becomes its
/// lower case, every other character is unchanged.
#[verifier::external_body]
fn to_ascii_lower(s: &str) -> (r: String)
    ensures
        r@ == ascii_lowercase_of(s@),
{
    s.to_ascii_lowercase()
}

/// Normalizes a raw address to its canonical form.
pub fn standardize_address(raw: &str) -> (r: String)
    ensures
        r@ == normalize(raw@),
{
    let n = raw.unicode_len();
    let body: &str = if n >= 2 && raw.get_char(0) == '0' && raw.get_char(1) == 'x' {
        raw.substring_char(2, n)
    } else {
        raw
    };
    assert(body@ == strip_hex_prefix(raw@));
    let lower = to_ascii_lower(body);
    let len = lower.as_str().unicode_len();
    let mut r = String::from_str("0x");
    proof {
        reveal_strlit("0x");
        reveal_strlit("0000000000000000000000000000000000000000000000000000000000000000");
    }
    if len < 64 {
        let zeros = "0000000000000000000000000000000000000000000000000000000000000000".substring_char(0, 64 - len);
        assert(zeros@ =~= Seq::new((64 - len) as nat, |i: int| '0'));
        r.append(zeros);
    } else {
        assert(Seq::new(0, |i: int| '0') + lower@ =~= lower@);
    }
    r.append(lower.as_str());
    assert(r@ =~= normalize(raw@));
    r
}

} // verus!
