//! SHA3-256 digests and lowercase hex rendering, shared by the key-state
//! and entropy modules.

use vstd::prelude::*;
use sha3::{Digest, Sha3_256};

verus! {

/// The SHA3-256 digest of the given bytes: a function of the input alone.
pub uninterp spec fn sha3_256_of(data: Seq<u8>) -> Seq<u8>;

/// Relies on `sha3::Sha3_256` (`Digest::digest`): the digest is 32 bytes
/// and depends on the input bytes alone.
#[verifier::external_body]
pub fn sha3_256(data: &[u8]) -> (r: Vec<u8>)
    ensures
        r@ == sha3_256_of(data@),
        r@.len() == 32,
{
    Sha3_256::digest(data).to_vec()
}

/// The sixteen lowercase hex digits.
pub const HEX_LOWER: [char; 16] = [
    '0',
    '1',
    '2',
    '3',
    '4',
    '5',
    '6',
    '7',
    '8',
    '9',
    'a',
    'b',
    'c',
    'd',
    'e',
    'f',
];

/// Lowercase hex rendering of a byte sequence, two digits per byte, most
/// significant digit first.
pub open spec fn hex_chars_of(data: Seq<u8>) -> Seq<char>
    decreases data.len(),
{
    if data.len() == 0 {
        Seq::empty()
    } else {
        seq![
            HEX_LOWER@[(data.first() >> 4u8) as int],
            HEX_LOWER@[(data.first() & 0x0fu8) as int],
        ] + hex_chars_of(data.drop_first())
    }
}

/// Relies on `hex::encode`: two lowercase hex digits per byte, most
/// significant first.
#[verifier::external_body]
pub fn hex_encode(data: &[u8]) -> (r: String)
    ensures
        r@ == hex_chars_of(data@),
{
    hex::encode(data)
}

} // verus!
