//! Content digests and identifier derivation.
//!
//! Hashing is delegated to an outside SHA-256 implementation and hex
//! formatting to an outside hex encoder; their results are named by the
//! uninterpreted functions [`sha256_of`] and [`hex_of`], and everything
//! around the two calls is verified against those names.

use vstd::prelude::*;

use crate::types::PrincipalId;

verus! {

/// The SHA-256 digest of a byte sequence.
pub uninterp spec fn sha256_of(b: Seq<u8>) -> Seq<u8>;

/// The lowercase hexadecimal rendering of a byte sequence.
pub uninterp spec fn hex_of(b: Seq<u8>) -> Seq<char>;

/// Relies on sha2's `Sha256` (through the `Digest` trait): the digest is a
/// function of the input bytes alone and is 32 bytes long.
#[verifier::external_body]
pub(crate) fn sha256_digest(bytes: &Vec<u8>) -> (r: Vec<u8>)
    ensures
        r@ == sha256_of(bytes@),
        r@.len() == 32,
{
    <sha2::Sha256 as sha2::Digest>::digest(bytes.as_slice()).to_vec()
}

/// Relies on `hex::encode`: two lowercase hex digits for each input byte,
/// a function of the input bytes alone.
#[verifier::external_body]
pub(crate) fn hex_encode_bytes(bytes: &Vec<u8>) -> (r: String)
    ensures
        r@ == hex_of(bytes@),
        r@.len() == 2 * bytes@.len(),
{
    hex::encode(bytes.as_slice())
}

/// The big-endian bytes of a 64-bit integer, most significant first.
pub open spec fn u64_be_bytes(x: u64) -> Seq<u8> {
    seq![
        ((x >> 56) & 0xff) as u8,
        ((x >> 48) & 0xff) as u8,
        ((x >> 40) & 0xff) as u8,
        ((x >> 32) & 0xff) as u8,
        ((x >> 24) & 0xff) as u8,
        ((x >> 16) & 0xff) as u8,
        ((x >> 8) & 0xff) as u8,
        (x & 0xff) as u8,
    ]
}

/// Splits an integer into its eight big-endian bytes.
pub fn u64_to_be_bytes(x: u64) -> (r: Vec<u8>)
    ensures
        r@ == u64_be_bytes(x),
{
    proof {
        assert((x >> 56) & 0xff < 256 && (x >> 48) & 0xff < 256 && (x >> 40) & 0xff < 256 && (x
            >> 32) & 0xff < 256 && (x >> 24) & 0xff < 256 && (x >> 16) & 0xff < 256 && (x >> 8)
            & 0xff < 256 && x & 0xff < 256) by (bit_vector);
    }
    let mut r: Vec<u8> = Vec::new();
    r.push(((x >> 56) & 0xff) as u8);
    r.push(((x >> 48) & 0xff) as u8);
    r.push(((x >> 40) & 0xff) as u8);
    r.push(((x >> 32) & 0xff) as u8);
    r.push(((x >> 24) & 0xff) as u8);
    r.push(((x >> 16) & 0xff) as u8);
    r.push(((x >> 8) & 0xff) as u8);
    r.push((x & 0xff) as u8);
    proof {
        assert(r@ =~= u64_be_bytes(x));
    }
    r
}

/// The transaction identifier derived from a timestamp and a caller: the
/// hex rendering of the first eight bytes of the SHA-256 digest of the
/// timestamp's and the caller's big-endian bytes.
pub open spec fn spec_transaction_id(timestamp: u64, caller: PrincipalId) -> Seq<char> {
    hex_of(sha256_of(u64_be_bytes(timestamp) + u64_be_bytes(caller.id)).take(8))
}

/// Derives the identifier recorded with each ledger entry.
pub fn generate_transaction_id(timestamp: u64, caller: PrincipalId) -> (r: String)
    ensures
        r@ == spec_transaction_id(timestamp, caller),
        r@.len() == 16,
{
    let mut buf = u64_to_be_bytes(timestamp);
    let mut tail = u64_to_be_bytes(caller.id);
    buf.append(&mut tail);
    proof {
        assert(buf@ =~= u64_be_bytes(timestamp) + u64_be_bytes(caller.id));
    }
    let mut digest = sha256_digest(&buf);
    digest.truncate(8);
    proof {
        assert(digest@ =~= sha256_of(u64_be_bytes(timestamp) + u64_be_bytes(caller.id)).take(8));
    }
    hex_encode_bytes(&digest)
}

} // verus!
