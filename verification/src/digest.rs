//! SHA-256, as hexadecimal text.

use sha2::{Digest, Sha256};
use vstd::prelude::*;
use vstd::string::*;
use vstd::utf8::encode_utf8;

verus! {

/// The SHA-256 digest of a sequence of bytes, written as lower-case hexadecimal digits.
pub uninterp spec fn sha256_text(bytes: Seq<u8>) -> Seq<char>;

/// Whether a character is a decimal digit or one of `a` to `f`.
pub open spec fn is_hex_digit(c: char) -> bool {
    ('0' <= c && c <= '9') || ('a' <= c && c <= 'f')
}

/// `sha2::Sha256::digest`, written out by the `LowerHex` of its result: two lower-case hexadecimal
/// digits for each of the 32 bytes. Which digits they are depends on the input alone.
#[verifier::external_body]
fn sha256_lower_hex(bytes: &[u8]) -> (s: String)
    ensures
        s@ == sha256_text(bytes@),
        s@.len() == 64,
        forall|i: int| 0 <= i < s@.len() ==> is_hex_digit(#[trigger] s@[i]),
{
    format!("{:x}", Sha256::digest(bytes))
}

/// The digest of a text's UTF-8 bytes. A client is known by the digest of its raw key.
pub fn sha256_hex(input: &str) -> (s: String)
    ensures
        s@ == sha256_text(encode_utf8(input@)),
        s@.len() == 64,
        forall|i: int| 0 <= i < s@.len() ==> is_hex_digit(#[trigger] s@[i]),
{
    sha256_lower_hex(input.as_bytes())
}

} // verus!
