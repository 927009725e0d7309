//! The CRC-32 checksum that guards the bootloader's environment block.
//!
//! This is the checksum of IEEE 802.3, as the bootloader computes it: the
//! reflected polynomial `0xedb88320`, all bits set at the start, all bits
//! inverted at the end.

use vstd::prelude::*;

verus! {

/// The polynomial, with its bits in reflected order.
pub const POLYNOMIAL: u32 = 0xedb8_8320;

/// One bit through the shift register.
pub open spec fn shifted(register: u32) -> u32 {
    if register & 1 == 1 {
        (register >> 1) ^ POLYNOMIAL
    } else {
        register >> 1
    }
}

/// The register after the eight bits of `byte` went through it.
pub open spec fn fed(register: u32, byte: u8) -> u32 {
    shifted(shifted(shifted(shifted(shifted(shifted(shifted(shifted(register ^ (byte as u32)))))))))
}

/// The register after all of `data` went through it, from all bits set.
pub open spec fn register_after(data: Seq<u8>) -> u32
    decreases data.len(),
{
    if data.len() == 0 {
        0xffff_ffff
    } else {
        fed(register_after(data.drop_last()), data.last())
    }
}

/// The CRC-32 checksum of `data`.
pub open spec fn crc32_of(data: Seq<u8>) -> u32 {
    register_after(data) ^ 0xffff_ffff
}

/// The four bytes of `value`, least significant first.
pub open spec fn le_bytes(value: u32) -> Seq<u8> {
    seq![
        (value % 256) as u8,
        (value / 256 % 256) as u8,
        (value / 65536 % 256) as u8,
        (value / 16777216) as u8,
    ]
}

/// The number that four bytes stand for, least significant first.
pub open spec fn le_value(bytes: Seq<u8>) -> int {
    bytes[0] + 256 * bytes[1] + 65536 * bytes[2] + 16777216 * bytes[3]
}

/// The bytes of a number stand for that number.
pub proof fn lemma_le_round_trip(value: u32)
    ensures
        le_bytes(value).len() == 4,
        le_value(le_bytes(value)) == value,
{
}

/// Puts one bit through the shift register.
fn shift(register: u32) -> (next: u32)
    ensures
        next == shifted(register),
{
    if register & 1 == 1 {
        (register >> 1) ^ POLYNOMIAL
    } else {
        register >> 1
    }
}

/// Puts the eight bits of `byte` through the shift register.
fn feed(register: u32, byte: u8) -> (next: u32)
    ensures
        next == fed(register, byte),
{
    let mut register = register ^ (byte as u32);
    register = shift(register);
    register = shift(register);
    register = shift(register);
    register = shift(register);
    register = shift(register);
    register = shift(register);
    register = shift(register);
    register = shift(register);
    register
}

/// Computes the CRC-32 checksum of `data`.
pub fn crc32(data: &[u8]) -> (checksum: u32)
    ensures
        checksum == crc32_of(data@),
{
    let mut register: u32 = 0xffff_ffff;
    let mut i: usize = 0;
    while i < data.len()
        invariant
            i <= data.len(),
            register == register_after(data@.take(i as int)),
        decreases data.len() - i,
    {
        assert(data@.take(i + 1).drop_last() =~= data@.take(i as int));
        register = feed(register, data[i]);
        i += 1;
    }
    assert(data@.take(i as int) =~= data@);
    register ^ 0xffff_ffff
}

/// Writes a number as four bytes, least significant first.
pub fn to_le_bytes(value: u32) -> (bytes: [u8; 4])
    ensures
        bytes@ == le_bytes(value),
{
    let bytes = [
        (value % 256) as u8,
        (value / 256 % 256) as u8,
        (value / 65536 % 256) as u8,
        (value / 16777216) as u8,
    ];
    assert(bytes@ =~= le_bytes(value));
    bytes
}

/// Reads a number from four bytes, least significant first.
pub fn from_le_bytes(bytes: [u8; 4]) -> (value: u32)
    ensures
        value == le_value(bytes@),
{
    let b0 = bytes[0] as u32;
    let b1 = bytes[1] as u32;
    let b2 = bytes[2] as u32;
    let b3 = bytes[3] as u32;
    b0 + 256 * b1 + 65536 * b2 + 16777216 * b3
}

} // verus!
