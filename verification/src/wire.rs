//! The wire form of the primitive values that payloads are made of.
//!
//! Every function here hands one primitive to the serialization framework
//! and states what it returns. Nothing in this module is proved: the
//! contracts are read off the framework's implementations for `u64`, `bool`
//! and `[u8; 32]`.

use vstd::prelude::*;
use vstd::bytes::*;

verus! {

/// Width of an encoded key.
pub const KEY_LEN: usize = 32;

/// Width of an encoded 64-bit integer.
pub const U64_LEN: usize = 8;

/// Width of an encoded flag.
pub const BOOL_LEN: usize = 1;

/// The byte that stands for a flag: 1 for `true`, 0 for `false`.
pub open spec fn flag_byte(b: bool) -> u8 {
    if b {
        1
    } else {
        0
    }
}

/// Encodes a 64-bit integer.
///
/// Trusted: `AnchorSerialize::serialize` for `u64` writes the eight bytes of
/// the value, least significant first, and writing into a vector does not
/// fail.
#[verifier::external_body]
pub(crate) fn put_u64(v: u64) -> (out: Vec<u8>)
    ensures
        out@ == spec_u64_to_le_bytes(v),
{
    let mut out: Vec<u8> = Vec::new();
    anchor_lang::AnchorSerialize::serialize(&v, &mut out).unwrap();
    out
}

/// Encodes a flag.
///
/// Trusted: `AnchorSerialize::serialize` for `bool` writes the single byte 1
/// for `true` and 0 for `false`.
#[verifier::external_body]
pub(crate) fn put_bool(b: bool) -> (out: Vec<u8>)
    ensures
        out@ == seq![flag_byte(b)],
{
    let mut out: Vec<u8> = Vec::new();
    anchor_lang::AnchorSerialize::serialize(&b, &mut out).unwrap();
    out
}

/// Encodes the 32 bytes of a key.
///
/// Trusted: `AnchorSerialize::serialize` for a byte array writes the bytes
/// as they stand, with no length in front.
#[verifier::external_body]
pub(crate) fn put_bytes32(bytes: &[u8; 32]) -> (out: Vec<u8>)
    ensures
        out@ == bytes@,
{
    let mut out: Vec<u8> = Vec::new();
    anchor_lang::AnchorSerialize::serialize(bytes, &mut out).unwrap();
    out
}

/// Decodes a 64-bit integer from the front of `buf`.
///
/// Trusted: `AnchorDeserialize::deserialize` for `u64` reads eight bytes,
/// least significant first, and fails only when fewer are left.
#[verifier::external_body]
pub(crate) fn take_u64(buf: &[u8]) -> (res: Option<u64>)
    ensures
        res.is_some() == (buf@.len() >= U64_LEN),
        res matches Some(v) ==> v == spec_u64_from_le_bytes(buf@.subrange(0, U64_LEN as int)),
{
    let mut rest: &[u8] = buf;
    let read: std::io::Result<u64> = anchor_lang::AnchorDeserialize::deserialize(&mut rest);
    read.ok()
}

/// Decodes a flag from the front of `buf`.
///
/// Trusted: `AnchorDeserialize::deserialize` for `bool` reads one byte and
/// fails when none is left or when the byte is neither 0 nor 1.
#[verifier::external_body]
pub(crate) fn take_bool(buf: &[u8]) -> (res: Option<bool>)
    ensures
        res.is_some() == (buf@.len() >= BOOL_LEN && buf@[0] <= 1),
        res matches Some(b) ==> flag_byte(b) == buf@[0],
{
    let mut rest: &[u8] = buf;
    let read: std::io::Result<bool> = anchor_lang::AnchorDeserialize::deserialize(&mut rest);
    read.ok()
}

/// Decodes the 32 bytes of a key from the front of `buf`.
///
/// Trusted: `AnchorDeserialize::deserialize` for a byte array reads as many
/// bytes as the array holds and fails only when fewer are left.
#[verifier::external_body]
pub(crate) fn take_bytes32(buf: &[u8]) -> (res: Option<[u8; 32]>)
    ensures
        res.is_some() == (buf@.len() >= KEY_LEN),
        res matches Some(bytes) ==> bytes@ == buf@.subrange(0, KEY_LEN as int),
{
    let mut rest: &[u8] = buf;
    let read: std::io::Result<[u8; 32]> = anchor_lang::AnchorDeserialize::deserialize(&mut rest);
    read.ok()
}

} // verus!
