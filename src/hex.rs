use vstd::prelude::*;

use crate::felt::{be_nat, field_prime, Felt};

verus! {

pub open spec fn is_hex_digit(c: char) -> bool {
    ('0' <= c && c <= '9') || ('a' <= c && c <= 'f') || ('A' <= c && c <= 'F')
}

pub open spec fn hex_digit_value(c: char) -> nat {
    if '0' <= c && c <= '9' {
        (c as u32 - '0' as u32) as nat
    } else if 'a' <= c && c <= 'f' {
        (c as u32 - 'a' as u32 + 10) as nat
    } else if 'A' <= c && c <= 'F' {
        (c as u32 - 'A' as u32 + 10) as nat
    } else {
        0
    }
}

/// The lowercase digit for a nibble.
pub open spec fn nibble_char(d: nat) -> char {
    if d == 0 { '0' } else if d == 1 { '1' } else if d == 2 { '2' } else if d == 3 { '3' }
    else if d == 4 { '4' } else if d == 5 { '5' } else if d == 6 { '6' } else if d == 7 { '7' }
    else if d == 8 { '8' } else if d == 9 { '9' } else if d == 10 { 'a' } else if d == 11 { 'b' }
    else if d == 12 { 'c' } else if d == 13 { 'd' } else if d == 14 { 'e' } else { 'f' }
}

pub open spec fn all_hex_digits(s: Seq<char>) -> bool {
    forall|i: int| 0 <= i < s.len() ==> is_hex_digit(s[i])
}

/// The value of a string of hex digits, most significant first.
pub open spec fn hex_nat(s: Seq<char>) -> nat
    decreases s.len(),
{
    if s.len() == 0 {
        0
    } else {
        hex_nat(s.drop_last()) * 16 + hex_digit_value(s.last())
    }
}

/// Removes every leading "0x".
pub open spec fn strip_hex_prefix(s: Seq<char>) -> Seq<char>
    decreases s.len(),
{
    if s.len() >= 2 && s[0] == '0' && s[1] == 'x' {
        strip_hex_prefix(s.subrange(2, s.len() as int))
    } else {
        s
    }
}

/// Text that names a field element: after its "0x" prefixes, at most 64 hex
/// digits of either case whose value is below the modulus.
pub open spec fn valid_scalar_text(s: Seq<char>) -> bool {
    let t = strip_hex_prefix(s);
    t.len() <= 64 && all_hex_digits(t) && hex_nat(t) < field_prime()
}

pub open spec fn scalar_text_value(s: Seq<char>) -> nat {
    hex_nat(strip_hex_prefix(s))
}

/// Two lowercase digits per byte.
pub open spec fn hex_of_bytes(b: Seq<u8>) -> Seq<char>
    decreases b.len(),
{
    if b.len() == 0 {
        Seq::empty()
    } else {
        hex_of_bytes(b.drop_last()) + seq![
            nibble_char(b.last() as nat / 16),
            nibble_char(b.last() as nat % 16),
        ]
    }
}

/// Drops leading '0' digits, keeping at least one digit.
pub open spec fn trim_leading_zeros(s: Seq<char>) -> Seq<char>
    decreases s.len(),
{
    if s.len() > 1 && s[0] == '0' {
        trim_leading_zeros(s.drop_first())
    } else {
        s
    }
}

/// The shortest display form of an element: "0x" and its lowercase digits
/// from the first nonzero one, or "0x0".
pub open spec fn scalar_text(f: Felt) -> Seq<char> {
    seq!['0', 'x'] + trim_leading_zeros(hex_of_bytes(f.bytes@))
}

/// Relies on starknet-ff's `starknet::core::types::FieldElement::from_hex_be`: it strips every
/// leading "0x", takes at most 64 hex digits of either case, and refuses a
/// value not below the modulus; `to_bytes_be` gives the 32-byte form.
#[verifier::external_body]
fn felt_from_hex(s: &str) -> (r: Option<Felt>)
    ensures
        r is Some <==> valid_scalar_text(s@),
        r matches Some(f) ==> f.value() == scalar_text_value(s@),
{
    match starknet::core::types::FieldElement::from_hex_be(s) {
        Ok(fe) => Some(Felt { bytes: fe.to_bytes_be() }),
        Err(_) => None,
    }
}

/// Relies on starknet-ff's `LowerHex` for `FieldElement`: lowercase digits
/// from the first nonzero nibble, a single "0" for zero.
#[verifier::external_body]
fn felt_to_hex(f: &Felt) -> (r: String)
    requires
        f.wf(),
    ensures
        r@ == scalar_text(*f),
{
    let fe = starknet::core::types::FieldElement::from_bytes_be(&f.bytes).unwrap();
    format!("0x{:x}", fe)
}

/// Parses a field element from hex text, with or without "0x".
pub fn parse_scalar(s: &str) -> (r: Option<Felt>)
    ensures
        r is Some <==> valid_scalar_text(s@),
        r matches Some(f) ==> f.value() == scalar_text_value(s@) && f.wf(),
{
    felt_from_hex(s)
}

/// The shortest "0x" form of a field element.
pub fn format_scalar(f: &Felt) -> (r: String)
    requires
        f.wf(),
    ensures
        r@ == scalar_text(*f),
{
    felt_to_hex(f)
}

proof fn lemma_nibble(d: nat)
    requires
        d < 16,
    ensures
        is_hex_digit(nibble_char(d)),
        hex_digit_value(nibble_char(d)) == d,
{
}

proof fn lemma_hex_of_bytes(b: Seq<u8>)
    ensures
        hex_of_bytes(b).len() == 2 * b.len(),
        all_hex_digits(hex_of_bytes(b)),
        hex_nat(hex_of_bytes(b)) == be_nat(b),
    decreases b.len(),
{
    if b.len() > 0 {
        let d = b.drop_last();
        let x = b.last() as nat;
        lemma_hex_of_bytes(d);
        lemma_nibble(x / 16);
        lemma_nibble(x % 16);
        let h = hex_of_bytes(b);
        let hd = hex_of_bytes(d);
        assert(h.drop_last().drop_last() =~= hd);
        assert(h.drop_last().last() == nibble_char(x / 16));
        assert(h.last() == nibble_char(x % 16));
        assert(hex_nat(h.drop_last()) == hex_nat(hd) * 16 + x / 16);
        assert(hex_nat(h) == hex_nat(h.drop_last()) * 16 + x % 16);
        assert(hex_nat(h) == (hex_nat(hd) * 16 + x / 16) * 16 + x % 16);
        assert(x == (x / 16) * 16 + x % 16);
        assert(hex_nat(h) == be_nat(d) * 256 + x);
    }
}

proof fn lemma_leading_zero_digit(t: Seq<char>)
    ensures
        hex_nat(seq!['0'] + t) == hex_nat(t),
    decreases t.len(),
{
    if t.len() == 0 {
        assert((seq!['0'] + t).drop_last() =~= Seq::<char>::empty());
        assert(hex_nat(Seq::<char>::empty()) == 0);
    } else {
        assert((seq!['0'] + t).drop_last() =~= seq!['0'] + t.drop_last());
        lemma_leading_zero_digit(t.drop_last());
        assert((seq!['0'] + t).last() == t.last());
        assert(hex_nat(seq!['0'] + t) == hex_nat(seq!['0'] + t.drop_last()) * 16 + hex_digit_value(t.last()));
    }
}

proof fn lemma_trim(s: Seq<char>)
    requires
        all_hex_digits(s),
        s.len() >= 1,
    ensures
        all_hex_digits(trim_leading_zeros(s)),
        1 <= trim_leading_zeros(s).len() <= s.len(),
        hex_nat(trim_leading_zeros(s)) == hex_nat(s),
    decreases s.len(),
{
    if s.len() > 1 && s[0] == '0' {
        let t = s.drop_first();
        lemma_trim(t);
        assert(s =~= seq!['0'] + t);
        lemma_leading_zero_digit(t);
    }
}

proof fn lemma_strip_digits(t: Seq<char>)
    requires
        all_hex_digits(t),
    ensures
        strip_hex_prefix(t) == t,
        strip_hex_prefix(seq!['0', 'x'] + t) == t,
{
    let s = seq!['0', 'x'] + t;
    assert(s.subrange(2, s.len() as int) =~= t);
    if t.len() >= 2 {
        assert(is_hex_digit(t[1]));
    }
}

/// Parsing the display form of a parsed element gives that element back.
pub proof fn lemma_scalar_round_trip(h: Seq<char>, f: Felt, g: Felt)
    requires
        valid_scalar_text(h),
        f.value() == scalar_text_value(h),
        g.value() == scalar_text_value(scalar_text(f)),
    ensures
        valid_scalar_text(scalar_text(f)),
        g.bytes@ == f.bytes@,
{
    let digits = hex_of_bytes(f.bytes@);
    lemma_hex_of_bytes(f.bytes@);
    lemma_trim(digits);
    let t = trim_leading_zeros(digits);
    lemma_strip_digits(t);
    assert(strip_hex_prefix(scalar_text(f)) == t);
    lemma_be_nat_injective_felt(g, f);
}

proof fn lemma_be_nat_injective_felt(g: Felt, f: Felt)
    requires
        g.value() == f.value(),
    ensures
        g.bytes@ == f.bytes@,
{
    crate::felt::lemma_be_nat_injective(g.bytes@, f.bytes@);
}

} // verus!
