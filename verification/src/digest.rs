//! SHA-256 digests of contents, as lowercase hexadecimal text.

use vstd::prelude::*;

verus! {

/// What `sha256::digest` returns for some bytes.
pub uninterp spec fn spec_sha256_hex(bytes: Seq<u8>) -> Seq<char>;

/// Lowercase hexadecimal digits.
pub open spec fn is_lower_hex(c: char) -> bool {
    ('0' <= c && c <= '9') || ('a' <= c && c <= 'f')
}

/// `sha256::digest` on bytes: the SHA-256 digest of `bytes` as lowercase
/// hex. Its result is named by `spec_sha256_hex`; the crate encodes the
/// 32-byte digest with `hex::encode`, so it is 64 lowercase hex digits. The
/// digest itself is not stated.
#[verifier::external_body]
fn sha256_hex(bytes: &[u8]) -> (r: String)
    ensures
        r@ == spec_sha256_hex(bytes@),
        r@.len() == 64,
        forall|i: int| 0 <= i < 64 ==> is_lower_hex(#[trigger] r@[i]),
{
    sha256::digest(bytes)
}

/// The SHA-256 digest of `bytes`, as 64 lowercase hex digits.
pub fn content_hash(bytes: &[u8]) -> (r: String)
    ensures
        r@ == spec_sha256_hex(bytes@),
        r@.len() == 64,
        forall|i: int| 0 <= i < 64 ==> is_lower_hex(#[trigger] r@[i]),
{
    sha256_hex(bytes)
}

} // verus!
