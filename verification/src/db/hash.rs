//! Content hashing with BLAKE3, used to detect changed text.
use vstd::prelude::*;

verus! {

/// The lowercase hexadecimal BLAKE3 digest of the UTF-8 encoding of `text`.
pub uninterp spec fn blake3_hex(text: Seq<char>) -> Seq<char>;

/// Whether `c` is one of `0-9` or `a-f`.
pub open spec fn is_lower_hex_digit(c: char) -> bool {
    ('0' <= c && c <= '9') || ('a' <= c && c <= 'f')
}

/// Calls `blake3::hash` on the bytes of `text` and renders the digest with
/// `Hash::to_hex`. The crate documents the rendering as lowercase hexadecimal
/// of the 32-byte digest, so the result has 64 characters from `0-9a-f`.
#[verifier::external_body]
fn blake3_hex_digest(text: &str) -> (r: String)
    ensures
        r@ == blake3_hex(text@),
        r@.len() == 64,
        forall|i: int| 0 <= i < 64 ==> is_lower_hex_digit(#[trigger] r@[i]),
{
    blake3::hash(text.as_bytes()).to_hex().to_string()
}

/// The BLAKE3 hash of `content` as a 64-character lowercase hex string.
pub fn content_hash(content: &str) -> (r: String)
    ensures
        r@ == blake3_hex(content@),
        r@.len() == 64,
        forall|i: int| 0 <= i < 64 ==> is_lower_hex_digit(#[trigger] r@[i]),
{
    blake3_hex_digest(content)
}

} // verus!
