//! Block digests and the proof-of-work predicate.

use sha2::{Digest, Sha256};
use vstd::prelude::*;
use vstd::string::*;
use vstd::utf8::encode_utf8;

verus! {

/// The ASCII decimal representation of `n`, without sign or leading zeros.
pub open spec fn decimal(n: nat) -> Seq<u8>
    decreases n,
{
    if n < 10 {
        seq![(48 + n) as u8]
    } else {
        decimal(n / 10).push((48 + n % 10) as u8)
    }
}

/// The bytes that are digested for a block: the fields in a fixed order,
/// concatenated with no delimiter or length prefix between them.
pub open spec fn hash_input(
    index: u64,
    timestamp: u128,
    prev_hash: Seq<char>,
    data: Seq<char>,
    nonce: u64,
) -> Seq<u8> {
    decimal(index as nat) + decimal(timestamp as nat) + encode_utf8(prev_hash) + encode_utf8(data)
        + decimal(nonce as nat)
}

/// The lower-case hexadecimal SHA-256 digest of `input`.
pub uninterp spec fn sha256_lower_hex(input: Seq<u8>) -> Seq<char>;

/// The digest that seals a block with these fields.
pub open spec fn block_hash(
    index: u64,
    timestamp: u128,
    prev_hash: Seq<char>,
    data: Seq<char>,
    nonce: u64,
) -> Seq<char> {
    sha256_lower_hex(hash_input(index, timestamp, prev_hash, data, nonce))
}

/// Number of leading `'0'` hex digits that a valid proof of work carries.
pub const DIFFICULTY: usize = 4;

/// A hash meets the difficulty target when it starts with four zero nibbles.
pub open spec fn meets_difficulty(hash: Seq<char>) -> bool {
    hash.len() >= DIFFICULTY && forall|i: int| 0 <= i < DIFFICULTY ==> hash[i] == '0'
}

/// Relies on sha2's `Sha256::digest` and the `LowerHex` formatting of its
/// output: the digest depends on the input bytes alone.
#[verifier::external_body]
fn sha256_hex(input: &[u8]) -> (r: String)
    ensures
        r@ == sha256_lower_hex(input@),
{
    format!("{:x}", Sha256::digest(input))
}

/// Appends the decimal digits of `n` to `out`.
fn push_decimal(out: &mut Vec<u8>, n: u128)
    ensures
        final(out)@ == old(out)@ + decimal(n as nat),
    decreases n,
{
    if n >= 10 {
        push_decimal(out, n / 10);
    }
    let d: u8 = (n % 10) as u8;
    out.push(48u8 + d);
    assert(final(out)@ =~= old(out)@ + decimal(n as nat));
}

/// Appends every byte of `bytes` to `out`.
fn push_bytes(out: &mut Vec<u8>, bytes: &[u8])
    ensures
        final(out)@ == old(out)@ + bytes@,
{
    let mut i: usize = 0;
    while i < bytes.len()
        invariant
            0 <= i <= bytes@.len(),
            out@ == old(out)@ + bytes@.subrange(0, i as int),
        decreases bytes@.len() - i,
    {
        out.push(bytes[i]);
        i = i + 1;
        assert(out@ =~= old(out)@ + bytes@.subrange(0, i as int));
    }
    assert(bytes@.subrange(0, i as int) =~= bytes@);
}

/// Computes the hex digest of a block's fields.
pub fn calculate_hash(index: u64, timestamp: u128, prev_hash: &str, data: &str, nonce: u64) -> (r:
    String)
    ensures
        r@ == block_hash(index, timestamp, prev_hash@, data@, nonce),
{
    let mut input: Vec<u8> = Vec::new();
    push_decimal(&mut input, index as u128);
    push_decimal(&mut input, timestamp);
    push_bytes(&mut input, prev_hash.as_bytes());
    push_bytes(&mut input, data.as_bytes());
    push_decimal(&mut input, nonce as u128);
    assert(input@ =~= hash_input(index, timestamp, prev_hash@, data@, nonce));
    sha256_hex(input.as_slice())
}

/// Checks the proof-of-work predicate on a hash.
pub fn verify_pow(hash: &str) -> (r: bool)
    ensures
        r == meets_difficulty(hash@),
{
    if hash.unicode_len() < DIFFICULTY {
        return false;
    }
    let mut i: usize = 0;
    while i < DIFFICULTY
        invariant
            i <= DIFFICULTY <= hash@.len(),
            forall|j: int| 0 <= j < i ==> hash@[j] == '0',
        decreases DIFFICULTY - i,
    {
        if hash.get_char(i) != '0' {
            return false;
        }
        i = i + 1;
    }
    true
}

} // verus!
