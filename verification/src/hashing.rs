//! Content digests: SHA-256 from sha2, lowercase hex renderings of bytes.
use vstd::prelude::*;
use sha2::Digest;
use crate::text::{owned, is_ascii_text};

verus! {

/// The SHA-256 digest of `data`, as sha2 computes it.
pub uninterp spec fn sha256(data: Seq<u8>) -> Seq<u8>;

/// The lowercase hex digit of a nibble.
pub open spec fn hex_digit(n: u8) -> char {
    if n < 10 {
        (('0' as u32) + n) as char
    } else {
        (('a' as u32) + n - 10) as char
    }
}

/// Two lowercase hex digits per byte, high nibble first.
pub open spec fn hex_lower(bytes: Seq<u8>) -> Seq<char>
    decreases bytes.len(),
{
    if bytes.len() == 0 {
        Seq::empty()
    } else {
        hex_lower(bytes.drop_last()) + seq![
            hex_digit(bytes.last() / 16),
            hex_digit(bytes.last() % 16),
        ]
    }
}

/// Hex digits are ASCII, two per byte.
pub proof fn lemma_hex_lower_ascii(bytes: Seq<u8>)
    ensures
        is_ascii_text(hex_lower(bytes)),
        hex_lower(bytes).len() == 2 * bytes.len(),
    decreases bytes.len(),
{
    if bytes.len() > 0 {
        let d = bytes.drop_last();
        lemma_hex_lower_ascii(d);
        let h = hex_lower(bytes);
        let hi = bytes.last() / 16;
        let lo = bytes.last() % 16;
        assert(hex_digit(hi) as u32 <= 'f' as u32);
        assert(hex_digit(lo) as u32 <= 'f' as u32);
        assert forall|i: int| 0 <= i < h.len() implies (#[trigger] h[i] as u32) < 0x80 by {
            if i < hex_lower(d).len() {
                assert(h[i] == hex_lower(d)[i]);
            }
        }
    }
}

/// `Sha256::digest`: the 32 digest bytes.
#[verifier::external_body]
fn sha256_digest(data: &[u8]) -> (r: Vec<u8>)
    ensures
        r@ == sha256(data@),
        r@.len() == 32,
{
    sha2::Sha256::digest(data).to_vec()
}

/// `hex::encode`: two lowercase hex digits per byte.
#[verifier::external_body]
fn hex_encode(bytes: &[u8]) -> (r: String)
    ensures
        r@ == hex_lower(bytes@),
{
    hex::encode(bytes)
}

/// The SHA-256 digest of `data` formatted with `{:x}`: the digest bytes as
/// 64 lowercase hex digits.
#[verifier::external_body]
pub(crate) fn sha256_hex(data: &[u8]) -> (r: String)
    ensures
        r@ == hex_lower(sha256(data@)),
        r@.len() == 64,
{
    format!("{:x}", sha2::Sha256::digest(data))
}

/// `sha256:` and the hex digest of a record's serialized bytes.
pub fn record_digest(bytes: &[u8]) -> (r: String)
    ensures
        r@ == "sha256:"@ + hex_lower(sha256(bytes@)),
{
    let digest = sha256_digest(bytes);
    let hex = hex_encode(digest.as_slice());
    let mut r = owned("sha256:");
    r.append(hex.as_str());
    r
}


/// The BLAKE3 hash of `data`, as the blake3 crate computes it.
pub uninterp spec fn blake3(data: Seq<u8>) -> Seq<u8>;

/// `blake3::hash(data).to_hex()`: the 32 hash bytes as 64 lowercase hex
/// digits.
#[verifier::external_body]
fn blake3_hex(data: &[u8]) -> (r: String)
    ensures
        r@ == hex_lower(blake3(data@)),
        r@.len() == 64,
{
    blake3::hash(data).to_hex().to_string()
}

/// `b3:` and the BLAKE3 hex digest of `bytes`.
pub fn b3_digest(bytes: &[u8]) -> (r: String)
    ensures
        r@ == "b3:"@ + hex_lower(blake3(bytes@)),
{
    let hex = blake3_hex(bytes);
    let mut r = owned("b3:");
    r.append(hex.as_str());
    r
}

} // verus!
