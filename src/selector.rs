use vstd::prelude::*;

use crate::felt::{field_prime, Felt};

verus! {

/// What `starknet::core::utils::get_selector_from_name` returns for an ASCII name.
pub uninterp spec fn selector_of(name: Seq<char>) -> Seq<u8>;

/// What `starknet::core::utils::starknet_keccak` returns for the bytes of a name.
pub uninterp spec fn sn_keccak_of(name: Seq<char>) -> Seq<u8>;

/// What `starknet_crypto::pedersen_hash` returns for two elements.
pub uninterp spec fn pedersen_of(x: Seq<u8>, y: Seq<u8>) -> Seq<u8>;

pub open spec fn ascii_text(s: Seq<char>) -> bool {
    forall|i: int| 0 <= i < s.len() ==> (s[i] as u32) < 128
}

/// The selector a name resolves to: its hash, or zero when it cannot be hashed.
pub open spec fn selector_value(name: Seq<char>) -> Seq<u8> {
    if ascii_text(name) {
        selector_of(name)
    } else {
        Seq::new(32, |i: int| 0u8)
    }
}

/// Relies on starknet-core's `get_selector_from_name`: it fails exactly on a
/// name that is not ASCII, and a `FieldElement` is always canonical.
#[verifier::external_body]
fn selector_from_name(name: &str) -> (r: Option<Felt>)
    ensures
        r is Some <==> ascii_text(name@),
        r matches Some(f) ==> f.bytes@ == selector_of(name@) && f.wf(),
{
    match starknet::core::utils::get_selector_from_name(name) {
        Ok(fe) => Some(Felt { bytes: fe.to_bytes_be() }),
        Err(_) => None,
    }
}

/// Relies on starknet-core's `starknet_keccak` over the name's bytes; its
/// result is a `FieldElement`, so canonical.
#[verifier::external_body]
fn name_hash(name: &str) -> (r: Felt)
    ensures
        r.bytes@ == sn_keccak_of(name@),
        r.wf(),
{
    Felt { bytes: starknet::core::utils::starknet_keccak(name.as_bytes()).to_bytes_be() }
}

/// Relies on starknet-crypto's `pedersen_hash`; the inputs are canonical, so
/// `from_bytes_be` accepts them.
#[verifier::external_body]
fn pedersen(x: &Felt, y: &Felt) -> (r: Felt)
    requires
        x.wf(),
        y.wf(),
    ensures
        r.bytes@ == pedersen_of(x.bytes@, y.bytes@),
        r.wf(),
{
    let a = starknet_crypto::FieldElement::from_bytes_be(&x.bytes).unwrap();
    let b = starknet_crypto::FieldElement::from_bytes_be(&y.bytes).unwrap();
    Felt { bytes: starknet_crypto::pedersen_hash(&a, &b).to_bytes_be() }
}

/// Relies on starknet-ff's `Add` for `FieldElement`: addition modulo the prime.
#[verifier::external_body]
fn felt_add(x: &Felt, y: &Felt) -> (r: Felt)
    requires
        x.wf(),
        y.wf(),
    ensures
        r.value() == (x.value() + y.value()) % field_prime(),
        r.wf(),
{
    let a = starknet::core::types::FieldElement::from_bytes_be(&x.bytes).unwrap();
    let b = starknet::core::types::FieldElement::from_bytes_be(&y.bytes).unwrap();
    Felt { bytes: (a + b).to_bytes_be() }
}

/// Resolves the selector of an entry point or event; a name that cannot be
/// hashed resolves to zero.
pub fn get_selector(name: &str) -> (r: Felt)
    ensures
        r.bytes@ == selector_value(name@),
        r.wf(),
{
    match selector_from_name(name) {
        Some(f) => f,
        None => {
            let z = Felt::zero();
            assert(z.bytes@ =~= Seq::new(32, |i: int| 0u8));
            z
        },
    }
}

/// The same name always resolves to the same selector.
pub proof fn lemma_selector_deterministic(a: Seq<char>, b: Seq<char>, ra: Felt, rb: Felt)
    requires
        a == b,
        ra.bytes@ == selector_value(a),
        rb.bytes@ == selector_value(b),
    ensures
        ra.bytes@ == rb.bytes@,
{
}

/// The base slot of a storage variable: the keccak of its name.
pub fn storage_base(name: &str) -> (r: Felt)
    ensures
        r.bytes@ == sn_keccak_of(name@),
        r.wf(),
{
    name_hash(name)
}

/// The candidate slots of a field of a storage aggregate, most likely first:
/// the pedersen hash of the aggregate's base and the field's hash, then the
/// aggregate's base plus the field's position.
pub fn nested_slot_candidates(node_name: &str, field_name: &str, position: u8) -> (r: Vec<Felt>)
    ensures
        r@.len() == 2,
        r@[0].bytes@ == pedersen_of(sn_keccak_of(node_name@), sn_keccak_of(field_name@)),
        r@[1].value() == (crate::felt::be_nat(sn_keccak_of(node_name@)) + position as nat) % field_prime(),
        forall|i: int| 0 <= i < r@.len() ==> r@[i].wf(),
{
    let base = name_hash(node_name);
    let field = name_hash(field_name);
    let hashed = pedersen(&base, &field);
    let offset = Felt::small(position);
    let linear = felt_add(&base, &offset);
    let mut r: Vec<Felt> = Vec::new();
    r.push(hashed);
    r.push(linear);
    r
}

} // verus!
