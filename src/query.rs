use vstd::prelude::*;

use crate::error::QueryError;
use crate::felt::{decode_u256, two_pow_128, Felt};
use crate::hex::{format_scalar, parse_scalar, scalar_text, scalar_text_value, valid_scalar_text};
use crate::selector::{
    get_selector, nested_slot_candidates, pedersen_of, selector_value, sn_keccak_of, storage_base,
};

verus! {

/// A read-only contract call: target, entry point and arguments.
pub struct CallRequest {
    pub contract: Felt,
    pub selector: Felt,
    pub calldata: Vec<Felt>,
}

pub open spec fn all_wf(v: Seq<Felt>) -> bool {
    forall|i: int| 0 <= i < v.len() ==> v[i].wf()
}

/// Parses a field element given as hex text; malformed text is refused.
pub fn parse_felt(s: &str) -> (r: Result<Felt, QueryError>)
    ensures
        r is Ok <==> valid_scalar_text(s@),
        r matches Ok(f) ==> f.value() == scalar_text_value(s@) && f.wf(),
        r matches Err(e) ==> (e matches QueryError::InvalidInput(t) && t@ == s@),
{
    match parse_scalar(s) {
        Some(f) => Ok(f),
        None => Err(QueryError::InvalidInput(s.to_owned())),
    }
}

/// Parses the contract address a client is built for; malformed text is a
/// configuration error.
pub fn parse_contract_address(s: &str) -> (r: Result<Felt, QueryError>)
    ensures
        r is Ok <==> valid_scalar_text(s@),
        r matches Ok(f) ==> f.value() == scalar_text_value(s@) && f.wf(),
        r matches Err(e) ==> (e matches QueryError::InvalidConfiguration(t) && t@ == s@),
{
    match parse_scalar(s) {
        Some(f) => Ok(f),
        None => Err(QueryError::InvalidConfiguration(s.to_owned())),
    }
}

/// The call of the entry point `name` on `contract` with `calldata`.
fn call_of(contract: &Felt, name: &str, calldata: Vec<Felt>) -> (r: CallRequest)
    ensures
        r.contract == *contract,
        r.selector.bytes@ == selector_value(name@),
        r.calldata@ == calldata@,
{
    CallRequest { contract: *contract, selector: get_selector(name), calldata }
}

/// `get_merkle_root()` on the pool.
pub fn merkle_root_call(pool: &Felt) -> (r: CallRequest)
    ensures
        r.contract == *pool,
        r.selector.bytes@ == selector_value("get_merkle_root"@),
        r.calldata@.len() == 0,
{
    call_of(pool, "get_merkle_root", Vec::new())
}

/// `is_nullifier_spent(nullifier)` on the pool.
pub fn nullifier_spent_call(pool: &Felt, nullifier: &str) -> (r: Result<CallRequest, QueryError>)
    ensures
        r is Ok <==> valid_scalar_text(nullifier@),
        r matches Ok(c) ==> c.contract == *pool && c.selector.bytes@ == selector_value(
            "is_nullifier_spent"@,
        ) && c.calldata@.len() == 1 && c.calldata@[0].value() == scalar_text_value(nullifier@),
        r matches Err(e) ==> e is InvalidInput,
{
    let n = parse_felt(nullifier)?;
    Ok(call_of(pool, "is_nullifier_spent", vec![n]))
}

/// `is_root_known(root)` on the pool.
pub fn root_known_call(pool: &Felt, root: &str) -> (r: Result<CallRequest, QueryError>)
    ensures
        r is Ok <==> valid_scalar_text(root@),
        r matches Ok(c) ==> c.contract == *pool && c.selector.bytes@ == selector_value(
            "is_root_known"@,
        ) && c.calldata@.len() == 1 && c.calldata@[0].value() == scalar_text_value(root@),
        r matches Err(e) ==> e is InvalidInput,
{
    let n = parse_felt(root)?;
    Ok(call_of(pool, "is_root_known", vec![n]))
}

/// `balance_of(owner)` on an ERC20 token.
pub fn balance_call(token: &str, owner: &str) -> (r: Result<CallRequest, QueryError>)
    ensures
        r is Ok <==> valid_scalar_text(token@) && valid_scalar_text(owner@),
        r matches Ok(c) ==> c.contract.value() == scalar_text_value(token@)
            && c.selector.bytes@ == selector_value("balance_of"@) && c.calldata@.len() == 1
            && c.calldata@[0].value() == scalar_text_value(owner@),
        r matches Err(e) ==> e is InvalidInput,
{
    let t = parse_felt(token)?;
    let o = parse_felt(owner)?;
    Ok(call_of(&t, "balance_of", vec![o]))
}

/// `allowance(owner, spender)` on an ERC20 token.
pub fn allowance_call(token: &str, owner: &str, spender: &str) -> (r: Result<
    CallRequest,
    QueryError,
>)
    ensures
        r is Ok <==> valid_scalar_text(token@) && valid_scalar_text(owner@) && valid_scalar_text(
            spender@,
        ),
        r matches Ok(c) ==> c.contract.value() == scalar_text_value(token@)
            && c.selector.bytes@ == selector_value("allowance"@) && c.calldata@.len() == 2
            && c.calldata@[0].value() == scalar_text_value(owner@) && c.calldata@[1].value()
            == scalar_text_value(spender@),
        r matches Err(e) ==> e is InvalidInput,
{
    let t = parse_felt(token)?;
    let o = parse_felt(owner)?;
    let s = parse_felt(spender)?;
    Ok(call_of(&t, "allowance", vec![o, s]))
}

/// Reads a boolean answer: zero is false, anything else true; no value at all
/// is an empty response.
pub fn decode_bool(result: &Vec<Felt>) -> (r: Result<bool, QueryError>)
    ensures
        result@.len() == 0 <==> r is Err,
        r matches Err(e) ==> e is EmptyResponse,
        r matches Ok(b) ==> b == (result@[0].value() != 0),
{
    if result.len() == 0 {
        return Err(QueryError::EmptyResponse);
    }
    Ok(!result[0].is_zero())
}

/// Reads a single field element answer as its "0x" display form.
pub fn decode_scalar_text(result: &Vec<Felt>) -> (r: Result<String, QueryError>)
    requires
        all_wf(result@),
    ensures
        result@.len() == 0 <==> r is Err,
        r matches Err(e) ==> e is EmptyResponse,
        r matches Ok(s) ==> s@ == scalar_text(result@[0]),
{
    if result.len() == 0 {
        return Err(QueryError::EmptyResponse);
    }
    Ok(format_scalar(&result[0]))
}

/// Reads a 256-bit answer sent as (low, high): fewer than two values, or a
/// half that does not fit in 128 bits, is a protocol mismatch.
pub fn decode_u256_response(result: &Vec<Felt>) -> (r: Result<(u128, u128), QueryError>)
    ensures
        r is Ok <==> result@.len() >= 2 && result@[0].value() < two_pow_128()
            && result@[1].value() < two_pow_128(),
        r matches Ok((l, h)) ==> l == result@[0].value() && h == result@[1].value(),
        r matches Err(e) ==> e is ProtocolMismatch,
{
    if result.len() < 2 {
        return Err(QueryError::ProtocolMismatch);
    }
    match decode_u256(&result[0], &result[1]) {
        Some(v) => Ok(v),
        None => Err(QueryError::ProtocolMismatch),
    }
}

/// The slot of the pool's `initialized` flag.
pub fn initialized_slot() -> (r: Felt)
    ensures
        r.bytes@ == sn_keccak_of("initialized"@),
        r.wf(),
{
    storage_base("initialized")
}

/// The aggregate must be set up before any of its fields is probed.
pub fn require_initialized(flag: &Felt) -> (r: Result<(), QueryError>)
    ensures
        r is Ok <==> flag.value() != 0,
        r matches Err(e) ==> e is NotInitialized,
{
    if flag.is_zero() {
        Err(QueryError::NotInitialized)
    } else {
        Ok(())
    }
}

/// The candidate slots of the pool's first or second token, most likely first.
pub fn pool_token_slots(second: bool) -> (r: Vec<Felt>)
    ensures
        r@.len() == 2,
        all_wf(r@),
        !second ==> r@[0].bytes@ == pedersen_of(sn_keccak_of("pool"@), sn_keccak_of("token0"@)),
        second ==> r@[0].bytes@ == pedersen_of(sn_keccak_of("pool"@), sn_keccak_of("token1"@)),
        r@[1].value() == (crate::felt::be_nat(sn_keccak_of("pool"@)) + if second {
            1nat
        } else {
            0nat
        }) % crate::felt::field_prime(),
{
    if second {
        nested_slot_candidates("pool", "token1", 1)
    } else {
        nested_slot_candidates("pool", "token0", 0)
    }
}

} // verus!
