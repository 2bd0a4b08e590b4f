//! Checksums of file contents.
//!
//! Files that travel between peers carry a CRC-32; the database keeps SHA-256
//! digests.

use sha2::Digest as _;
use vstd::prelude::*;

use crate::numbers::{hex_bytes_text, hex_text};

verus! {

/// A CRC register after so many bits, the lowest first, were divided by the
/// polynomial of CRC-32 (IEEE), written with its lowest term first.
pub open spec fn crc32_shifted(register: u32, bits: nat) -> u32
    decreases bits,
{
    if bits == 0 {
        register
    } else {
        let before = crc32_shifted(register, (bits - 1) as nat);
        if before & 1 == 1 {
            (before >> 1) ^ 0xedb8_8320
        } else {
            before >> 1
        }
    }
}

/// The CRC register, which starts with all bits set, after some bytes.
pub open spec fn crc32_register(data: Seq<u8>) -> u32
    decreases data.len(),
{
    if data.len() == 0 {
        0xffff_ffff
    } else {
        crc32_shifted(crc32_register(data.drop_last()) ^ data.last() as u32, 8)
    }
}

/// The CRC-32 (IEEE) of some bytes: the register after them, with all bits
/// inverted.
pub open spec fn crc32(data: Seq<u8>) -> u32 {
    !crc32_register(data)
}

/// Wraps `crc32fast::Hasher`: a new hasher is fed the bytes once and
/// finalised, and returns their CRC-32 (IEEE).
#[verifier::external_body]
pub(crate) fn crc32_of(data: &[u8]) -> (sum: u32)
    ensures
        sum == crc32(data@),
{
    let mut hasher = crc32fast::Hasher::new();
    hasher.update(data);
    hasher.finalize()
}

/// The SHA-256 digest that `sha2` computes of some bytes.
pub uninterp spec fn sha256(data: Seq<u8>) -> Seq<u8>;

/// Wraps `sha2::Sha256`: a new hasher is fed the bytes once and finalised, and
/// returns their digest of thirty-two bytes.
#[verifier::external_body]
pub(crate) fn sha256_of(data: &[u8]) -> (digest: Vec<u8>)
    ensures
        digest@ == sha256(data@),
        digest@.len() == 32,
{
    let mut hasher = sha2::Sha256::new();
    hasher.update(data);
    hasher.finalize().to_vec()
}

/// A CRC-32 as it is sent: eight hexadecimal digits.
pub open spec fn crc32_text(sum: u32) -> Seq<char> {
    crate::numbers::hex_digits(sum as nat, 8)
}

/// The checksum that is sent with a file's content.
pub open spec fn transfer_checksum(data: Seq<u8>) -> Seq<char> {
    crc32_text(crc32(data))
}

/// The checksum that the database keeps for a file's content.
pub open spec fn stored_checksum(data: Seq<u8>) -> Seq<char> {
    crate::numbers::hex_bytes(sha256(data))
}

/// Computes the checksum that is sent with a file's content.
pub fn crc32_hex(data: &[u8]) -> (checksum: String)
    ensures
        checksum@ == transfer_checksum(data@),
{
    hex_text(crc32_of(data))
}

/// Computes the checksum that the database keeps for a file's content.
pub fn sha256_hex(data: &[u8]) -> (checksum: String)
    ensures
        checksum@ == stored_checksum(data@),
{
    let digest: Vec<u8> = sha256_of(data);
    hex_bytes_text(&digest)
}

// ---------------------------------------------------------------------------
// Laws
// ---------------------------------------------------------------------------

/// The checksum that is sent with a file is its CRC-32 in eight hexadecimal
/// digits, the one that is kept its SHA-256 digest, byte by byte.
pub proof fn law_checksums_show_the_sums(data: Seq<u8>, i: nat)
    ensures
        transfer_checksum(data).len() == 8,
        i < 8 ==> crate::numbers::is_small_hex(transfer_checksum(data)[7 - i]),
        i < 8 ==> crate::numbers::small_hex_value(transfer_checksum(data)[7 - i]) == (crc32(data)
            as nat / crate::numbers::power_of_16(i)) % 16,
        stored_checksum(data).len() == 2 * sha256(data).len(),
        i < sha256(data).len() ==> crate::numbers::small_hex_value(stored_checksum(data)[2 * i as int])
            * 16 + crate::numbers::small_hex_value(stored_checksum(data)[2 * i as int + 1])
            == sha256(data)[i as int],
{
    crate::numbers::law_hex_digits_stand_for_the_number(crc32(data) as nat, 8, i);
    crate::numbers::law_bytes_are_shown_one_by_one(sha256(data), i as int);
}

} // verus!
