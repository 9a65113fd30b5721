//! Hashes by which changed contents are told from unchanged ones.
use vstd::prelude::*;

verus! {

/// The BLAKE3 digest of some contents.
pub uninterp spec fn blake3_digest(content: Seq<u8>) -> Seq<u8>;

/// `blake3::hash` gives the digest of the contents, a function of these alone.
#[verifier::external_body]
fn blake3_hash(content: &[u8]) -> (r: [u8; 32])
    ensures
        r@ == blake3_digest(content@),
{
    *blake3::hash(content).as_bytes()
}

/// The character that stands for a number below sixteen.
pub open spec fn hex_char(n: nat) -> char {
    if n < 10 {
        (48 + n) as char
    } else {
        (87 + n) as char
    }
}

/// Bytes in lower case hexadecimal, two characters each, the high half first.
pub open spec fn hex_text(bytes: Seq<u8>) -> Seq<char> {
    Seq::new(
        2 * bytes.len(),
        |i: int|
            if i % 2 == 0 {
                hex_char((bytes[i / 2] / 16) as nat)
            } else {
                hex_char((bytes[i / 2] % 16) as nat)
            },
    )
}

/// `blake3::Hash::to_hex` writes the digest in lower case hexadecimal.
#[verifier::external_body]
fn blake3_to_hex(digest: [u8; 32]) -> (r: String)
    ensures
        r@ == hex_text(digest@),
{
    format!("{}", blake3::Hash::from_bytes(digest).to_hex())
}

/// The hash that stands for the contents of an asset.
pub open spec fn asset_hash(content: Seq<u8>) -> Seq<char> {
    hex_text(blake3_digest(content))
}

/// Hashes the contents of an asset.
pub fn generate_asset_hash(content: &[u8]) -> (r: String)
    ensures
        r@ == asset_hash(content@),
        r@.len() == 64,
{
    let digest = blake3_hash(content);
    blake3_to_hex(digest)
}

} // verus!
