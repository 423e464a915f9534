//! Encodings and digests.
use base64::Engine;
use sha2::Digest;
use vstd::prelude::*;

verus! {

/// Bytes in base64, standard alphabet, padded.
pub uninterp spec fn base64_text(bytes: Seq<u8>) -> Seq<char>;

/// What reading a text as base64, standard alphabet, padded, gives: the bytes, or the message of
/// the error.
pub uninterp spec fn base64_bytes(text: Seq<char>) -> Result<Seq<u8>, Seq<char>>;

/// The SHA-256 digest of some bytes.
pub uninterp spec fn sha256_digest(bytes: Seq<u8>) -> Seq<u8>;

/// `base64::Engine::encode` of the engine `STANDARD`. The text depends on the bytes alone:
/// `base64_text` names it. Decoding it with the same engine gives the bytes back.
#[verifier::external_body]
pub(crate) fn base64_encode(bytes: &[u8]) -> (r: String)
    ensures
        r@ == base64_text(bytes@),
        base64_bytes(r@) is Ok && base64_bytes(r@)->Ok_0 == bytes@,
{
    base64::engine::general_purpose::STANDARD.encode(bytes)
}

/// `base64::Engine::decode` of the engine `STANDARD`. What it returns depends on the text alone:
/// `base64_bytes` names it, and the message that `to_string` gives of its error.
#[verifier::external_body]
pub(crate) fn base64_decode(text: &str) -> (r: Result<Vec<u8>, String>)
    ensures
        r is Ok <==> base64_bytes(text@) is Ok,
        r is Ok ==> r->Ok_0@ == base64_bytes(text@)->Ok_0,
        r is Err ==> r->Err_0@ == base64_bytes(text@)->Err_0,
{
    base64::engine::general_purpose::STANDARD.decode(text).map_err(|e| e.to_string())
}

/// `sha2::Sha256::digest`. The digest depends on the bytes alone and is 32 bytes long:
/// `sha256_digest` names it.
#[verifier::external_body]
pub(crate) fn sha256(bytes: &[u8]) -> (r: Vec<u8>)
    ensures
        r@ == sha256_digest(bytes@),
        r@.len() == 32,
{
    sha2::Sha256::digest(bytes).to_vec()
}

/// What is told of bytes that are no UTF-8.
pub uninterp spec fn utf8_complaint(bytes: Seq<u8>) -> Seq<char>;

/// `String::from_utf8` gives the text that the bytes encode, or refuses bytes that are no UTF-8.
/// The message that `to_string` gives of its error depends on the bytes alone: `utf8_complaint`
/// names it.
#[verifier::external_body]
pub(crate) fn utf8_text(bytes: Vec<u8>) -> (r: Result<String, String>)
    ensures
        r is Ok <==> vstd::utf8::valid_utf8(bytes@),
        r is Ok ==> r->Ok_0@ == vstd::utf8::decode_utf8(bytes@),
        r is Err ==> r->Err_0@ == utf8_complaint(bytes@),
{
    String::from_utf8(bytes).map_err(|e| e.to_string())
}

} // verus!
