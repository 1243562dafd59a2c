//! Project identifiers: 128-bit UUID values, their text form and parsing,
//! through the `uuid` crate.
use vstd::prelude::*;

use crate::text::{ascii_lower, is_white_space};

verus! {

/// `16^k`.
pub open spec fn pow16(k: nat) -> nat
    decreases k,
{
    if k == 0 {
        1
    } else {
        16 * pow16((k - 1) as nat)
    }
}

/// Lowercase hexadecimal digit for `d < 16`.
pub open spec fn hex_digit(d: nat) -> char {
    if d < 10 {
        ((48 + d) as u8) as char
    } else {
        ((87 + d) as u8) as char
    }
}

/// The 32 lowercase hexadecimal digits of `n`, most significant first.
pub open spec fn hex32(n: nat) -> Seq<char> {
    Seq::new(32, |i: int| hex_digit((n / pow16((31 - i) as nat)) % 16))
}

/// The hyphenated lowercase text of a UUID (`8-4-4-4-12` hex digits), as
/// `Uuid`'s `Display` writes it.
pub open spec fn uuid_text(id: u128) -> Seq<char> {
    let h = hex32(id as nat);
    h.subrange(0, 8) + seq!['-'] + h.subrange(8, 12) + seq!['-'] + h.subrange(12, 16) + seq!['-']
        + h.subrange(16, 20) + seq!['-'] + h.subrange(20, 32)
}

/// The value of a hexadecimal digit in either case.
pub open spec fn hex_value(c: char) -> Option<nat> {
    if '0' <= c && c <= '9' {
        Some(((c as nat) - 48) as nat)
    } else if 'a' <= c && c <= 'f' {
        Some(((c as nat) - 87) as nat)
    } else if 'A' <= c && c <= 'F' {
        Some(((c as nat) - 55) as nat)
    } else {
        None
    }
}

/// The number written by the hexadecimal digits `s`, if all are digits.
pub open spec fn hex_number(s: Seq<char>) -> Option<nat>
    decreases s.len(),
{
    if s.len() == 0 {
        Some(0)
    } else {
        match (hex_number(s.drop_last()), hex_value(s.last())) {
            (Some(a), Some(d)) => Some(a * 16 + d),
            _ => None,
        }
    }
}

/// The value of a 36-character hyphenated UUID text.
pub open spec fn hyphenated_value(s: Seq<char>) -> Option<nat> {
    if s.len() == 36 && s[8] == '-' && s[13] == '-' && s[18] == '-' && s[23] == '-' {
        hex_number(
            s.subrange(0, 8) + s.subrange(9, 13) + s.subrange(14, 18) + s.subrange(19, 23)
                + s.subrange(24, 36),
        )
    } else {
        None
    }
}

/// What `Uuid::parse_str` accepts: 32 hex digits, the hyphenated form, the
/// hyphenated form in braces, or `urn:uuid:` (any case) and the hyphenated
/// form; hex digits in either case.
pub open spec fn parsed_uuid(s: Seq<char>) -> Option<u128> {
    let v = if s.len() == 32 {
        hex_number(s)
    } else if s.len() == 36 {
        hyphenated_value(s)
    } else if s.len() == 38 && s[0] == '{' && s[37] == '}' {
        hyphenated_value(s.subrange(1, 37))
    } else if s.len() == 45 && ascii_lower(s.subrange(0, 9)) == "urn:uuid:"@ {
        hyphenated_value(s.subrange(9, 45))
    } else {
        None
    };
    match v {
        Some(n) => Some(n as u128),
        None => None,
    }
}

/// `Uuid::from_u128(id).to_string()`: the hyphenated lowercase text of the
/// UUID with value `id`.
#[verifier::external_body]
pub(crate) fn id_text(id: u128) -> (s: String)
    ensures
        s@ == uuid_text(id),
{
    uuid::Uuid::from_u128(id).to_string()
}

/// `Uuid::parse_str(s)`, as the 128-bit value of the UUID it reads; `None`
/// when the text is not one of the accepted forms.
#[verifier::external_body]
pub(crate) fn parse_id(s: &str) -> (r: Option<u128>)
    ensures
        r == parsed_uuid(s@),
{
    match uuid::Uuid::parse_str(s) {
        Ok(u) => Some(u.as_u128()),
        Err(_) => None,
    }
}

/// `Uuid::new_v4()`: a random UUID; of every outcome, the version nibble is
/// 4 and the variant bits are `10`.
#[verifier::external_body]
pub(crate) fn new_random_id() -> (id: u128)
    ensures
        (id as nat / pow16(19)) % 16 == 4,
        (id as nat / pow16(15)) % 16 >= 8,
        (id as nat / pow16(15)) % 16 < 12,
{
    uuid::Uuid::new_v4().as_u128()
}

pub proof fn lemma_pow16_pos(k: nat)
    ensures
        pow16(k) > 0,
    decreases k,
{
    if k > 0 {
        lemma_pow16_pos((k - 1) as nat);
    }
}

/// A hex digit reads back as its value, and is neither white space nor a
/// hyphen nor a colon.
pub proof fn lemma_hex_digit(d: nat)
    requires
        d < 16,
    ensures
        hex_value(hex_digit(d)) == Some(d),
        !is_white_space(hex_digit(d)),
        hex_digit(d) != '-',
        hex_digit(d) != ':',
{
    if d < 10 {
        assert(((48 + d) as u8) as char == ((48 + d) as u8) as char);
        assert((((48 + d) as u8) as char) as nat == 48 + d);
    } else {
        assert((((87 + d) as u8) as char) as nat == 87 + d);
    }
}

/// The first `k` digits of `hex32(n)` read back as `n / 16^(32-k)`.
pub proof fn lemma_hex_prefix(n: nat, k: nat)
    requires
        k <= 32,
        n < pow16(32),
    ensures
        hex_number(hex32(n).take(k as int)) == Some(n / pow16((32 - k) as nat)),
    decreases k,
{
    let h = hex32(n);
    if k == 0 {
        assert(h.take(0) =~= Seq::<char>::empty());
        lemma_pow16_pos(32);
        vstd::arithmetic::div_mod::lemma_basic_div(n as int, pow16(32) as int);
    } else {
        lemma_hex_prefix(n, (k - 1) as nat);
        let t = h.take(k as int);
        assert(t.drop_last() =~= h.take(k - 1));
        let a = pow16((32 - k) as nat);
        lemma_pow16_pos((32 - k) as nat);
        assert(pow16((32 - (k - 1)) as nat) == 16 * a);
        let x = n / a;
        assert(t.last() == hex_digit(x % 16));
        lemma_hex_digit(x % 16);
        vstd::arithmetic::div_mod::lemma_div_denominator(n as int, a as int, 16);
        assert(n / (16 * a) == x / 16) by {
            assert(a * 16 == 16 * a) by (nonlinear_arith);
        }
        vstd::arithmetic::div_mod::lemma_fundamental_div_mod(x as int, 16);
        assert(x / 16 * 16 + x % 16 == x) by (nonlinear_arith)
            requires
                x == 16 * (x / 16) + x % 16,
        ;
    }
}

/// `2^128` in powers of sixteen.
pub proof fn lemma_pow16_32()
    ensures
        pow16(32) == 0x1_0000_0000_0000_0000_0000_0000_0000_0000nat,
{
    reveal_with_fuel(pow16, 33);
}

/// The text of an id reads back as that id.
pub proof fn law_id_text_parses_back(id: u128)
    ensures
        parsed_uuid(uuid_text(id)) == Some(id),
{
    let n = id as nat;
    lemma_pow16_32();
    let h = hex32(n);
    lemma_hex_prefix(n, 32);
    assert(h.take(32) =~= h);
    assert(pow16(0) == 1);
    assert(n / 1 == n) by (nonlinear_arith);
    let s = uuid_text(id);
    assert(s.len() == 36);
    assert(s[8] == '-' && s[13] == '-' && s[18] == '-' && s[23] == '-');
    assert(s.subrange(0, 8) + s.subrange(9, 13) + s.subrange(14, 18) + s.subrange(19, 23)
        + s.subrange(24, 36) =~= h);
}

/// The text of an id is free of white space and colons.
pub proof fn lemma_id_text_chars(id: u128)
    ensures
        forall|i: int|
            0 <= i < uuid_text(id).len() ==> !is_white_space(#[trigger] uuid_text(id)[i])
                && uuid_text(id)[i] != ':',
{
    let h = hex32(id as nat);
    assert forall|i: int| 0 <= i < 32 implies !is_white_space(#[trigger] h[i]) && h[i] != ':' by {
        lemma_hex_digit(((id as nat) / pow16((31 - i) as nat)) % 16);
    }
    let s = uuid_text(id);
    assert forall|i: int| 0 <= i < s.len() implies !is_white_space(#[trigger] s[i]) && s[i] != ':' by {
        if i < 8 {
            assert(s[i] == h[i]);
        } else if 8 < i < 13 {
            assert(s[i] == h[i - 1]);
        } else if 13 < i < 18 {
            assert(s[i] == h[i - 2]);
        } else if 18 < i < 23 {
            assert(s[i] == h[i - 3]);
        } else if 23 < i {
            assert(s[i] == h[i - 4]);
        }
    }
}

} // verus!
