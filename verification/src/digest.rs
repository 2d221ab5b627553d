//! The digest that binds a record to its predecessor.

use crypto::digest::Digest;
use crypto::sha2::Sha256;
use vstd::prelude::*;
use vstd::string::StringExecFns;

verus! {

/// Number of characters from which on a text is not handed to the digest.
///
/// SHA-256 as implemented by the `crypto` crate gives up once a message
/// reaches 2^61 bytes. UTF-8 spends at most four bytes on a character, so a
/// text of fewer than 2^59 characters is always accepted.
pub const DIGEST_LIMIT: u64 = 0x0800_0000_0000_0000;

/// The SHA-256 digest of the UTF-8 encoding of `text`, in lower-case
/// hexadecimal. It stands for what `hex_digest` returns, and nothing is
/// known of it but what is said there.
pub uninterp spec fn sha256_hex(text: Seq<char>) -> Seq<char>;

/// Hashes `text` with `crypto::sha2::Sha256`: a fresh hasher from
/// `Sha256::new`, the text fed in by `Digest::input_str`, the digest read
/// out in lower-case hexadecimal by `Digest::result_str`.
///
/// Trusted: the result is the SHA-256 hex digest of the text, a function of
/// the text alone, and it has 64 characters (32 bytes, two digits each).
/// `input_str` panics on messages of 2^61 bytes or more, which the
/// precondition rules out.
#[verifier::external_body]
pub(crate) fn hex_digest(text: &str) -> (digest: String)
    requires
        text@.len() < DIGEST_LIMIT,
    ensures
        digest@ == sha256_hex(text@),
        digest@.len() == 64,
{
    let mut hasher = Sha256::new();
    hasher.input_str(text);
    hasher.result_str()
}

/// The digest of `head` followed by `tail`, as one text.
pub fn digest_of_pair(head: &str, tail: &str) -> (digest: String)
    requires
        head@.len() + tail@.len() < DIGEST_LIMIT,
    ensures
        digest@ == sha256_hex(head@ + tail@),
        digest@.len() == 64,
{
    let mut text = head.to_owned();
    text.append(tail);
    hex_digest(text.as_str())
}

} // verus!
