//! Decoding of execution payloads.
//!
//! An oracle address is the first 32 bytes of the payload. A parameter update
//! is a little-endian `u64` key in bytes 0 to 7 followed by a little-endian
//! two's-complement `i128` value in bytes 8 to 23. Bytes beyond those are
//! ignored.

use vstd::prelude::*;
use crate::address::{address_prefix, Address};
use crate::oracle::errors::OracleError;

verus! {

/// Shortest payload that holds a parameter update.
pub const PARAMETER_PAYLOAD_LEN: usize = 24;

/// The unsigned number whose little-endian bytes are the 8 bytes of `data`
/// from `at` on.
pub open spec fn le_u64_at(data: Seq<u8>, at: int) -> int {
    data[at] + data[at + 1] * 0x100 + data[at + 2] * 0x1_0000 + data[at + 3] * 0x100_0000 + data[at
        + 4] * 0x1_0000_0000 + data[at + 5] * 0x100_0000_0000 + data[at + 6] * 0x1_0000_0000_0000
        + data[at + 7] * 0x100_0000_0000_0000
}

/// The unsigned number whose little-endian bytes are the 16 bytes of `data`
/// from `at` on.
pub open spec fn le_u128_at(data: Seq<u8>, at: int) -> int {
    le_u64_at(data, at) + le_u64_at(data, at + 8) * 0x1_0000_0000_0000_0000
}

/// The signed number whose little-endian two's-complement bytes are the 16
/// bytes of `data` from `at` on.
pub open spec fn le_i128_at(data: Seq<u8>, at: int) -> int {
    let raw = le_u128_at(data, at);
    if raw >= 0x8000_0000_0000_0000_0000_0000_0000_0000 {
        raw - 0x1_0000_0000_0000_0000_0000_0000_0000_0000
    } else {
        raw
    }
}

/// The `(key, value)` pair that a parameter payload holds.
pub open spec fn parameter_of(payload: Seq<u8>) -> Result<(u64, i128), OracleError> {
    if payload.len() < 24 {
        Err(OracleError::InvalidPrice)
    } else {
        Ok((le_u64_at(payload, 0) as u64, le_i128_at(payload, 8) as i128))
    }
}

/// The oracle address that a payload holds.
pub open spec fn oracle_address_of(payload: Seq<u8>) -> Result<Address, OracleError> {
    match address_prefix(payload) {
        Some(oracle) => Ok(oracle),
        None => Err(OracleError::InvalidPrice),
    }
}

/// Reads 8 little-endian bytes.
fn read_le_u64(data: &Vec<u8>, at: usize) -> (r: u64)
    requires
        at + 8 <= data@.len(),
    ensures
        r == le_u64_at(data@, at as int),
{
    let len: usize = data.len();
    assert(at + 8 <= len);
    let b0: u64 = data[at] as u64;
    let b1: u64 = data[at + 1] as u64;
    let b2: u64 = data[at + 2] as u64;
    let b3: u64 = data[at + 3] as u64;
    let b4: u64 = data[at + 4] as u64;
    let b5: u64 = data[at + 5] as u64;
    let b6: u64 = data[at + 6] as u64;
    let b7: u64 = data[at + 7] as u64;
    b0 + b1 * 0x100 + b2 * 0x1_0000 + b3 * 0x100_0000 + b4 * 0x1_0000_0000 + b5 * 0x100_0000_0000
        + b6 * 0x1_0000_0000_0000 + b7 * 0x100_0000_0000_0000
}

/// Reads 16 little-endian two's-complement bytes.
fn read_le_i128(data: &Vec<u8>, at: usize) -> (r: i128)
    requires
        at + 16 <= data@.len(),
    ensures
        r == le_i128_at(data@, at as int),
{
    let len: usize = data.len();
    assert(at + 16 <= len);
    let low: u128 = read_le_u64(data, at) as u128;
    let high: u128 = read_le_u64(data, at + 8) as u128;
    let raw: u128 = low + high * 0x1_0000_0000_0000_0000;
    if raw >= 0x8000_0000_0000_0000_0000_0000_0000_0000 {
        let magnitude: u128 = raw - 0x8000_0000_0000_0000_0000_0000_0000_0000;
        (magnitude as i128) + i128::MIN
    } else {
        raw as i128
    }
}

/// Decodes the oracle address at the start of an execution payload.
///
/// Fails with `InvalidPrice` exactly when the payload is shorter than an
/// address.
pub fn decode_oracle_address(payload: &Vec<u8>) -> (r: Result<Address, OracleError>)
    ensures
        r == oracle_address_of(payload@),
        r is Ok <==> payload@.len() >= 32,
        r matches Ok(oracle) ==> oracle.bytes@ == payload@.subrange(0, 32),
{
    match Address::from_prefix(payload) {
        Some(oracle) => Ok(oracle),
        None => Err(OracleError::InvalidPrice),
    }
}

/// Decodes the `(key, value)` pair of a parameter update.
///
/// Fails with `InvalidPrice` exactly when the payload is shorter than 24
/// bytes.
pub fn decode_parameter(payload: &Vec<u8>) -> (r: Result<(u64, i128), OracleError>)
    ensures
        r == parameter_of(payload@),
        r is Ok <==> payload@.len() >= 24,
        r matches Ok((key, value)) ==> key == le_u64_at(payload@, 0) && value == le_i128_at(
            payload@,
            8,
        ),
{
    if payload.len() < PARAMETER_PAYLOAD_LEN {
        return Err(OracleError::InvalidPrice);
    }
    let key: u64 = read_le_u64(payload, 0);
    let value: i128 = read_le_i128(payload, 8);
    Ok((key, value))
}

} // verus!
