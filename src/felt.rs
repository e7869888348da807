use vstd::prelude::*;

verus! {

/// The modulus of the field: 2^251 + 17 * 2^192 + 1.
pub open spec fn field_prime() -> nat {
    0x8000000000000110000000000000000 * two_pow_128() + 1
}

/// 2^128, the bound of each half of a 256-bit scalar.
pub open spec fn two_pow_128() -> nat {
    0x1_0000_0000_0000_0000 * 0x1_0000_0000_0000_0000
}

/// 256^k.
pub open spec fn pow256(k: nat) -> nat
    decreases k,
{
    if k == 0 {
        1
    } else {
        256 * pow256((k - 1) as nat)
    }
}

/// The unsigned value of a big-endian byte string.
pub open spec fn be_nat(s: Seq<u8>) -> nat
    decreases s.len(),
{
    if s.len() == 0 {
        0
    } else {
        be_nat(s.drop_last()) * 256 + s.last() as nat
    }
}

pub proof fn lemma_pow256_positive(k: nat)
    ensures
        pow256(k) >= 1,
    decreases k,
{
    if k > 0 {
        lemma_pow256_positive((k - 1) as nat);
    }
}

pub proof fn lemma_pow256_mono(a: nat, b: nat)
    requires
        a <= b,
    ensures
        pow256(a) <= pow256(b),
    decreases b,
{
    if a < b {
        lemma_pow256_mono(a, (b - 1) as nat);
        lemma_pow256_positive((b - 1) as nat);
    }
}

pub proof fn lemma_pow256_16()
    ensures
        pow256(16) == two_pow_128(),
        pow256(4) == 0x1_0000_0000,
{
    reveal_with_fuel(pow256, 17);
}

/// A big-endian value is below 256 to the power of its length.
pub proof fn lemma_be_nat_bound(s: Seq<u8>)
    ensures
        be_nat(s) < pow256(s.len()),
    decreases s.len(),
{
    if s.len() > 0 {
        lemma_be_nat_bound(s.drop_last());
    }
}

/// A big-endian value is zero exactly when every byte is zero.
pub proof fn lemma_be_nat_zero(s: Seq<u8>)
    ensures
        be_nat(s) == 0 <==> (forall|i: int| 0 <= i < s.len() ==> s[i] == 0),
    decreases s.len(),
{
    if s.len() > 0 {
        lemma_be_nat_zero(s.drop_last());
        if be_nat(s) == 0 {
            assert forall|i: int| 0 <= i < s.len() implies s[i] == 0 by {
                if i < s.len() - 1 {
                    assert(s.drop_last()[i] == s[i]);
                }
            }
        }
        if forall|i: int| 0 <= i < s.len() ==> s[i] == 0 {
            assert forall|i: int| 0 <= i < s.drop_last().len() implies s.drop_last()[i] == 0 by {
                assert(s.drop_last()[i] == s[i]);
            }
        }
    }
}

/// The value of a concatenation: the front part is shifted by the back part's length.
pub proof fn lemma_be_nat_concat(a: Seq<u8>, b: Seq<u8>)
    ensures
        be_nat(a + b) == be_nat(a) * pow256(b.len()) + be_nat(b),
    decreases b.len(),
{
    if b.len() == 0 {
        assert(a + b =~= a);
        assert(be_nat(b) == 0);
        assert(pow256(0) == 1);
        assert(be_nat(a) * 1 == be_nat(a));
    } else {
        let bd = b.drop_last();
        assert((a + b).drop_last() =~= a + bd);
        assert((a + b).last() == b.last());
        lemma_be_nat_concat(a, bd);
        let x = be_nat(a);
        let y = pow256(bd.len());
        let z = be_nat(bd);
        assert((x * y + z) * 256 == x * (256 * y) + z * 256) by (nonlinear_arith);
        assert(pow256(b.len()) == 256 * y);
        assert(be_nat(a + b) == be_nat(a + bd) * 256 + b.last() as nat);
        assert(be_nat(b) == z * 256 + b.last() as nat);
        assert(be_nat(a + b) == x * pow256(b.len()) + be_nat(b));
    }
}

/// Leading zero bytes do not change a big-endian value.
pub proof fn lemma_be_nat_leading_zeros(zeros: Seq<u8>, s: Seq<u8>)
    requires
        forall|i: int| 0 <= i < zeros.len() ==> zeros[i] == 0,
    ensures
        be_nat(zeros + s) == be_nat(s),
{
    lemma_be_nat_zero(zeros);
    lemma_be_nat_concat(zeros, s);
}

/// Two byte strings of one length with one value are the same string.
pub proof fn lemma_be_nat_injective(a: Seq<u8>, b: Seq<u8>)
    requires
        a.len() == b.len(),
        be_nat(a) == be_nat(b),
    ensures
        a == b,
    decreases a.len(),
{
    if a.len() > 0 {
        vstd::arithmetic::div_mod::lemma_fundamental_div_mod_converse(
            be_nat(a) as int,
            256,
            be_nat(a.drop_last()) as int,
            a.last() as int,
        );
        vstd::arithmetic::div_mod::lemma_fundamental_div_mod_converse(
            be_nat(b) as int,
            256,
            be_nat(b.drop_last()) as int,
            b.last() as int,
        );
        lemma_be_nat_injective(a.drop_last(), b.drop_last());
        assert(a =~= a.drop_last().push(a.last()));
        assert(b =~= b.drop_last().push(b.last()));
    } else {
        assert(a =~= b);
    }
}

/// A field element in its canonical 32-byte big-endian form.
#[derive(Clone, Copy, Debug)]
pub struct Felt {
    pub bytes: [u8; 32],
}

impl Felt {
    /// The integer the element stands for.
    pub open spec fn value(&self) -> nat {
        be_nat(self.bytes@)
    }

    /// The element is canonical: below the field's modulus.
    pub open spec fn wf(&self) -> bool {
        self.value() < field_prime()
    }

    pub fn zero() -> (r: Felt)
        ensures
            forall|i: int| 0 <= i < 32 ==> r.bytes@[i] == 0,
            r.value() == 0,
            r.wf(),
    {
        let r = Felt { bytes: [0u8; 32] };
        proof {
            lemma_be_nat_zero(r.bytes@);
        }
        r
    }

    /// The element holding a small integer.
    pub fn small(k: u8) -> (r: Felt)
        ensures
            r.value() == k,
            r.wf(),
    {
        let r = Felt { bytes: [0, 0, 0, 0, 0, 0, 0, 0, 0, 0, 0, 0, 0, 0, 0, 0, 0, 0, 0, 0, 0, 0, 0, 0, 0, 0, 0, 0, 0, 0, 0, k] };
        proof {
            let s = r.bytes@;
            let zeros = s.drop_last();
            assert forall|i: int| 0 <= i < zeros.len() implies zeros[i] == 0 by {
                assert(zeros[i] == s[i]);
            }
            lemma_be_nat_zero(zeros);
        }
        r
    }

    /// Whether the element is zero; by the chain's convention, false.
    pub fn is_zero(&self) -> (r: bool)
        ensures
            r == (self.value() == 0),
    {
        let mut i: usize = 0;
        while i < 32
            invariant
                i <= 32,
                forall|j: int| 0 <= j < i ==> self.bytes@[j] == 0,
            decreases 32 - i,
        {
            if self.bytes[i] != 0 {
                proof {
                    lemma_be_nat_zero(self.bytes@);
                }
                return false;
            }
            i += 1;
        }
        proof {
            lemma_be_nat_zero(self.bytes@);
        }
        true
    }

    /// Byte-for-byte equality of two elements.
    pub fn same(&self, other: &Felt) -> (r: bool)
        ensures
            r == (self.bytes@ == other.bytes@),
    {
        let mut i: usize = 0;
        while i < 32
            invariant
                i <= 32,
                forall|j: int| 0 <= j < i ==> self.bytes@[j] == other.bytes@[j],
            decreases 32 - i,
        {
            if self.bytes[i] != other.bytes[i] {
                return false;
            }
            i += 1;
        }
        assert(self.bytes@ =~= other.bytes@);
        true
    }
}

/// Reads the big-endian integer held in `bytes[start..32]`, at most 16 bytes.
fn read_be_tail(bytes: &[u8; 32], start: usize) -> (r: u128)
    requires
        16 <= start <= 32,
    ensures
        r == be_nat(bytes@.subrange(start as int, 32)),
{
    let mut acc: u128 = 0;
    let mut i: usize = start;
    proof {
        assert(bytes@.subrange(start as int, start as int).len() == 0);
    }
    while i < 32
        invariant
            16 <= start <= i <= 32,
            acc == be_nat(bytes@.subrange(start as int, i as int)),
            acc < pow256((i - start) as nat),
        decreases 32 - i,
    {
        proof {
            let k = (i - start) as nat;
            lemma_pow256_mono(k + 1, 16);
            lemma_pow256_16();
            let next = bytes@.subrange(start as int, i + 1);
            assert(next.drop_last() =~= bytes@.subrange(start as int, i as int));
            assert(next.last() == bytes@[i as int]);
            assert(pow256(k + 1) == 256 * pow256(k));
        }
        acc = acc * 256 + bytes[i] as u128;
        i += 1;
    }
    acc
}

/// The leading sixteen bytes are all zero.
pub open spec fn upper_half_zero(f: &Felt) -> bool {
    forall|i: int| 0 <= i < 16 ==> f.bytes@[i] == 0
}

fn upper_half_is_zero(f: &Felt) -> (r: bool)
    ensures
        r == upper_half_zero(f),
{
    let mut i: usize = 0;
    while i < 16
        invariant
            i <= 16,
            forall|j: int| 0 <= j < i ==> f.bytes@[j] == 0,
        decreases 16 - i,
    {
        if f.bytes[i] != 0 {
            return false;
        }
        i += 1;
    }
    true
}

/// The value splits as the upper sixteen bytes times 2^128 plus the lower sixteen.
proof fn lemma_felt_halves(f: &Felt)
    ensures
        f.value() == be_nat(f.bytes@.subrange(0, 16)) * two_pow_128() + be_nat(
            f.bytes@.subrange(16, 32),
        ),
        be_nat(f.bytes@.subrange(16, 32)) < two_pow_128(),
        upper_half_zero(f) <==> f.value() < two_pow_128(),
{
    let s = f.bytes@;
    let hi = s.subrange(0, 16);
    let lo = s.subrange(16, 32);
    assert(s =~= hi + lo);
    lemma_be_nat_concat(hi, lo);
    lemma_pow256_16();
    lemma_be_nat_bound(lo);
    lemma_be_nat_zero(hi);
    if !upper_half_zero(f) {
        assert(exists|i: int| 0 <= i < 16 && hi[i] != 0) by {
            let i = choose|i: int| 0 <= i < 16 && s[i] != 0;
            assert(hi[i] == s[i]);
        }
        assert(be_nat(hi) >= 1);
        assert(be_nat(hi) * two_pow_128() >= two_pow_128()) by (nonlinear_arith)
            requires
                be_nat(hi) >= 1,
        ;
    } else {
        assert forall|i: int| 0 <= i < hi.len() implies hi[i] == 0 by {
            assert(hi[i] == s[i]);
        }
    }
}

/// Decodes a 256-bit scalar sent as two field elements, low half first. Each
/// half is the element's low sixteen bytes; a half that does not fit in 128
/// bits is a protocol violation.
pub fn decode_u256(low: &Felt, high: &Felt) -> (r: Option<(u128, u128)>)
    ensures
        r is Some <==> (low.value() < two_pow_128() && high.value() < two_pow_128()),
        r matches Some((l, h)) ==> l == low.value() && h == high.value(),
        r matches Some((l, h)) ==> l == be_nat(low.bytes@.subrange(16, 32)) && h == be_nat(
            high.bytes@.subrange(16, 32),
        ),
{
    proof {
        lemma_felt_halves(low);
        lemma_felt_halves(high);
    }
    if !upper_half_is_zero(low) || !upper_half_is_zero(high) {
        return None;
    }
    proof {
        lemma_be_nat_zero(low.bytes@.subrange(0, 16));
        lemma_be_nat_zero(high.bytes@.subrange(0, 16));
        assert forall|i: int| 0 <= i < 16 implies low.bytes@.subrange(0, 16)[i] == 0 by {}
        assert forall|i: int| 0 <= i < 16 implies high.bytes@.subrange(0, 16)[i] == 0 by {}
    }
    Some((read_be_tail(&low.bytes, 16), read_be_tail(&high.bytes, 16)))
}

/// A leaf index: the low four bytes of the element's big-endian form.
pub fn leaf_index(f: &Felt) -> (r: u32)
    ensures
        r == be_nat(f.bytes@.subrange(28, 32)),
        r == f.value() % 0x1_0000_0000,
{
    let v = read_be_tail(&f.bytes, 28);
    proof {
        let s = f.bytes@;
        let front = s.subrange(0, 28);
        let tail = s.subrange(28, 32);
        assert(s =~= front + tail);
        lemma_be_nat_concat(front, tail);
        lemma_be_nat_bound(tail);
        lemma_pow256_16();
        vstd::arithmetic::div_mod::lemma_fundamental_div_mod_converse(
            f.value() as int,
            0x1_0000_0000,
            be_nat(front) as int,
            be_nat(tail) as int,
        );
    }
    v as u32
}

} // verus!
