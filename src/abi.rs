//! ABI words for the static argument and result types that contracts use.
use crate::storage::Address;
use alloy_core::primitives::Address as AlloyAddress;
use alloy_sol_types::SolValue;
use vstd::prelude::*;

verus! {

/// The integer that eight bytes spell in big-endian order.
pub open spec fn u64_from_be(b: Seq<u8>) -> u64 {
    (b[7] as u64) | (b[6] as u64) << 8 | (b[5] as u64) << 16 | (b[4] as u64) << 24
        | (b[3] as u64) << 32 | (b[2] as u64) << 40 | (b[1] as u64) << 48 | (b[0] as u64) << 56
}

/// The big-endian bytes of a 64-bit integer.
pub open spec fn be_bytes(n: u64) -> Seq<u8> {
    Seq::new(8, |i: int| ((n >> (8 * (7 - i)) as u64) & 0xff) as u8)
}

/// The ABI word of a `uint64`: 24 zero bytes, then the value big-endian.
pub open spec fn u64_word(v: u64) -> Seq<u8> {
    Seq::new(32, |i: int| if i < 24 { 0u8 } else { be_bytes(v)[i - 24] })
}

/// The ABI word of a `bool`: 31 zero bytes, then 0 or 1.
pub open spec fn bool_word(b: bool) -> Seq<u8> {
    Seq::new(32, |i: int| if i == 31 && b { 1u8 } else { 0u8 })
}

/// The 32-byte word at position `k` of an ABI blob.
pub open spec fn word(data: Seq<u8>, k: int) -> Seq<u8> {
    data.subrange(32 * k, 32 * k + 32)
}

/// A word is a valid `address`: its 12 leading bytes are zero.
pub open spec fn is_address_word(w: Seq<u8>) -> bool {
    forall|i: int| 0 <= i < 12 ==> w[i] == 0
}

/// A word is a valid `uint64`: its 24 leading bytes are zero.
pub open spec fn is_u64_word(w: Seq<u8>) -> bool {
    forall|i: int| 0 <= i < 24 ==> w[i] == 0
}

/// The address a valid address word holds.
pub open spec fn address_of_word(w: Seq<u8>) -> Seq<u8> {
    w.subrange(12, 32)
}

/// The integer a valid uint64 word holds.
pub open spec fn u64_of_word(w: Seq<u8>) -> u64 {
    u64_from_be(w.subrange(24, 32))
}

/// `data` is exactly the strict encoding of `(address)`.
pub open spec fn valid_address_args(data: Seq<u8>) -> bool {
    data.len() == 32 && is_address_word(word(data, 0))
}

/// `data` is exactly the strict encoding of `(address, uint64)`.
pub open spec fn valid_address_u64_args(data: Seq<u8>) -> bool {
    data.len() == 64 && is_address_word(word(data, 0)) && is_u64_word(word(data, 1))
}

/// `data` is exactly the strict encoding of `(address, address, uint64)`.
pub open spec fn valid_address_address_u64_args(data: Seq<u8>) -> bool {
    data.len() == 96 && is_address_word(word(data, 0)) && is_address_word(word(data, 1))
        && is_u64_word(word(data, 2))
}

/// Relies on alloy_sol_types::SolValue::abi_decode for `address` in strict
/// mode: the blob must re-encode to itself, so it is one word whose 12 leading
/// bytes are zero; the address is the word's last 20 bytes.
#[verifier::external_body]
pub(crate) fn decode_address(data: &[u8]) -> (r: Option<Address>)
    ensures
        r is Some <==> valid_address_args(data@),
        r matches Some(a) ==> a.bytes@ == address_of_word(word(data@, 0)),
{
    match <AlloyAddress as SolValue>::abi_decode(data, true) {
        Ok(a) => Some(Address::new(a.into_array())),
        Err(_) => None,
    }
}

/// Relies on alloy_sol_types::SolValue::abi_decode for `(address, uint64)` in
/// strict mode: two words, each with zero padding, nothing more.
#[verifier::external_body]
pub(crate) fn decode_address_u64(data: &[u8]) -> (r: Option<(Address, u64)>)
    ensures
        r is Some <==> valid_address_u64_args(data@),
        r matches Some(t) ==> t.0.bytes@ == address_of_word(word(data@, 0)) && t.1 == u64_of_word(
            word(data@, 1),
        ),
{
    match <(AlloyAddress, u64) as SolValue>::abi_decode(data, true) {
        Ok((a, v)) => Some((Address::new(a.into_array()), v)),
        Err(_) => None,
    }
}

/// Relies on alloy_sol_types::SolValue::abi_decode for
/// `(address, address, uint64)` in strict mode: three words, each with zero
/// padding, nothing more.
#[verifier::external_body]
pub(crate) fn decode_address_address_u64(data: &[u8]) -> (r: Option<(Address, Address, u64)>)
    ensures
        r is Some <==> valid_address_address_u64_args(data@),
        r matches Some(t) ==> t.0.bytes@ == address_of_word(word(data@, 0)) && t.1.bytes@
            == address_of_word(word(data@, 1)) && t.2 == u64_of_word(word(data@, 2)),
{
    match <(AlloyAddress, AlloyAddress, u64) as SolValue>::abi_decode(data, true) {
        Ok((a, b, v)) => Some((Address::new(a.into_array()), Address::new(b.into_array()), v)),
        Err(_) => None,
    }
}

/// Relies on alloy_sol_types::SolValue::abi_encode for `uint64`: one word,
/// the value big-endian in its last eight bytes.
#[verifier::external_body]
pub(crate) fn encode_u64(v: u64) -> (r: Vec<u8>)
    ensures
        r@ == u64_word(v),
{
    v.abi_encode()
}

/// Relies on alloy_sol_types::SolValue::abi_encode for `bool`: one word
/// whose last byte is 0 or 1.
#[verifier::external_body]
pub(crate) fn encode_bool(b: bool) -> (r: Vec<u8>)
    ensures
        r@ == bool_word(b),
{
    b.abi_encode()
}

/// Reads the `uint64` result word of a call: the big-endian integer in bytes
/// 24 to 32.
pub fn parse_hex_result(result: &[u8]) -> (r: u64)
    requires
        result@.len() >= 32,
    ensures
        r == u64_from_be(result@.subrange(24, 32)),
{
    (result[31] as u64) | (result[30] as u64) << 8 | (result[29] as u64) << 16 | (result[28] as u64)
        << 24 | (result[27] as u64) << 32 | (result[26] as u64) << 40 | (result[25] as u64) << 48
        | (result[24] as u64) << 56
}

/// Reads the `bool` result of a call: true exactly when the output is one
/// word whose last byte is 1.
pub fn parse_bool_result(hex_result: &[u8]) -> (r: bool)
    ensures
        r == (hex_result@.len() == 32 && hex_result@[31] == 1),
{
    if hex_result.len() == 32 {
        hex_result[31] == 1
    } else {
        false
    }
}

} // verus!
