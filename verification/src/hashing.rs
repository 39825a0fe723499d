//! The content hash that binds a block to its history: SHA-256 over the
//! UTF-8 bytes of a text, written out as lowercase hexadecimal.

use crate::text::{digit_char, digit_str};
use sha2::Digest;
use vstd::prelude::*;
use vstd::string::*;
use vstd::utf8::encode_utf8;

verus! {

/// How a block's canonical text is laid out: the nonce is part of it only
/// where a block is produced by a nonce search.
#[derive(Clone, Copy, Debug, PartialEq, Eq, Structural)]
pub enum HashingScheme {
    WithoutNonce,
    WithNonce,
}

/// Two lowercase hexadecimal digits for each byte, the high half first.
pub open spec fn hex_text(bytes: Seq<u8>) -> Seq<char>
    decreases bytes.len(),
{
    if bytes.len() == 0 {
        Seq::empty()
    } else {
        hex_text(bytes.drop_last()).push(digit_char(bytes.last() as int / 16)).push(
            digit_char(bytes.last() as int % 16),
        )
    }
}

/// Whether `c` is a digit of lowercase hexadecimal.
pub open spec fn is_lower_hex(c: char) -> bool {
    ('0' <= c && c <= '9') || ('a' <= c && c <= 'f')
}

/// The SHA-256 digest of a byte string.
pub uninterp spec fn sha256_digest(data: Seq<u8>) -> Seq<u8>;

/// The hash of a text: the hexadecimal form of the SHA-256 digest of its
/// UTF-8 encoding.
pub open spec fn text_hash(text: Seq<char>) -> Seq<char> {
    hex_text(sha256_digest(encode_utf8(text)))
}

/// A hexadecimal numeral has two characters for each byte, and each is a
/// digit of lowercase hexadecimal.
pub proof fn lemma_hex_text_shape(bytes: Seq<u8>)
    ensures
        hex_text(bytes).len() == 2 * bytes.len(),
        forall|i: int|
            0 <= i < hex_text(bytes).len() ==> is_lower_hex(#[trigger] hex_text(bytes)[i]),
    decreases bytes.len(),
{
    if bytes.len() > 0 {
        lemma_hex_text_shape(bytes.drop_last());
        reveal_strlit("0123456789abcdef");
        let high = bytes.last() as int / 16;
        let low = bytes.last() as int % 16;
        assert(is_lower_hex(digit_char(high)));
        assert(is_lower_hex(digit_char(low)));
    }
}

/// Trusted: `sha2::Sha256::digest` computes the SHA-256 digest of `data`,
/// which is 32 bytes long. The digest is taken as given, under the name
/// `sha256_digest`; nothing else is claimed of it.
#[verifier::external_body]
fn sha256(data: &[u8]) -> (digest: Vec<u8>)
    ensures
        digest@ == sha256_digest(data@),
        digest@.len() == 32,
{
    sha2::Sha256::digest(data).to_vec()
}

/// Writes `bytes` as lowercase hexadecimal.
pub fn to_hex(bytes: &[u8]) -> (text: String)
    ensures
        text@ == hex_text(bytes@),
{
    let mut text = String::new();
    let mut i: usize = 0;
    while i < bytes.len()
        invariant
            i <= bytes.len(),
            text@ == hex_text(bytes@.take(i as int)),
        decreases bytes.len() - i,
    {
        let byte = bytes[i];
        text.append(digit_str(byte / 16));
        text.append(digit_str(byte % 16));
        assert(bytes@.take(i + 1).drop_last() =~= bytes@.take(i as int));
        assert(text@ =~= hex_text(bytes@.take(i + 1)));
        i += 1;
    }
    assert(bytes@.take(i as int) =~= bytes@);
    text
}

/// Hashes `text`: SHA-256 over its UTF-8 bytes, as 64 digits of lowercase
/// hexadecimal.
pub fn hash_text(text: &str) -> (hash: String)
    ensures
        hash@ == text_hash(text@),
        hash@.len() == 64,
        forall|i: int| 0 <= i < 64 ==> is_lower_hex(#[trigger] hash@[i]),
{
    let digest = sha256(text.as_bytes());
    proof {
        lemma_hex_text_shape(digest@);
    }
    to_hex(digest.as_slice())
}

} // verus!
