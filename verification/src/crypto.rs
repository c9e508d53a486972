//! Digests, strict base64 and Ed25519 signatures.
use vstd::prelude::*;

use crate::text::{hex_text, to_hex};

verus! {

/// The SHA-256 digest of some bytes.
pub uninterp spec fn sha256(data: Seq<u8>) -> Seq<u8>;

/// Computes a SHA-256 digest.
///
/// Relies on `sha2::Sha256::digest`, whose result is named [`sha256`]: it
/// depends on the bytes alone and is 32 bytes long.
#[verifier::external_body]
fn sha256_digest(data: &[u8]) -> (r: Vec<u8>)
    ensures
        r@ == sha256(data@),
        r@.len() == 32,
{
    <sha2::Sha256 as sha2::Digest>::digest(data).to_vec()
}

/// A digest as it is written: the algorithm, a colon, and the digest in
/// lower-case hexadecimal.
pub open spec fn digest_text(data: Seq<u8>) -> Seq<char> {
    "sha256:"@ + hex_text(sha256(data))
}

/// Digests `data` and writes the digest out.
pub fn digest_string(data: &[u8]) -> (r: String)
    ensures
        r@ == digest_text(data@),
{
    let digest = sha256_digest(data);
    "sha256:".to_owned().concat(to_hex(digest.as_slice()).as_str())
}

/// What strict base64 text stands for, or why it stands for nothing.
pub uninterp spec fn base64_decoded(text: Seq<char>) -> Result<Seq<u8>, Seq<char>>;

/// Decodes strict canonical base64: standard alphabet, required padding, no
/// trailing bits.
///
/// Relies on the `decode` of a `base64` engine with that configuration, whose
/// result, or the text of its error, is named [`base64_decoded`]: it depends
/// on the text alone.
#[verifier::external_body]
pub(crate) fn decode_base64(text: &str) -> (r: Result<Vec<u8>, String>)
    ensures
        match r {
            Ok(bytes) => base64_decoded(text@) == Ok::<Seq<u8>, Seq<char>>(bytes@),
            Err(detail) => base64_decoded(text@) == Err::<Seq<u8>, Seq<char>>(detail@),
        },
{
    let config = base64::engine::general_purpose::GeneralPurposeConfig::new()
        .with_decode_padding_mode(base64::engine::DecodePaddingMode::RequireCanonical)
        .with_decode_allow_trailing_bits(false);
    let engine = base64::engine::GeneralPurpose::new(&base64::alphabet::STANDARD, config);
    match base64::Engine::decode(&engine, text) {
        Ok(bytes) => Ok(bytes),
        Err(e) => Err(e.to_string()),
    }
}

/// Whether 32 bytes are the encoding of an Ed25519 public key.
pub uninterp spec fn ed25519_key(key: Seq<u8>) -> bool;

/// Tests the bytes of a public key.
///
/// Relies on `ed25519_dalek::VerifyingKey::from_bytes`, whose success is named
/// [`ed25519_key`]: it depends on the bytes alone.
#[verifier::external_body]
fn key_accepted(key: &[u8]) -> (r: bool)
    requires
        key@.len() == 32,
    ensures
        r == ed25519_key(key@),
{
    ed25519_dalek::VerifyingKey::from_bytes(<&[u8; 32]>::try_from(key).unwrap()).is_ok()
}

/// Whether a signature by a key on a message verifies strictly.
pub uninterp spec fn ed25519_signed(key: Seq<u8>, message: Seq<u8>, signature: Seq<u8>) -> bool;

/// Verifies a signature.
///
/// Relies on `ed25519_dalek::VerifyingKey::verify_strict`, whose success is
/// named [`ed25519_signed`]: it depends on the key, the message and the
/// signature alone.
#[verifier::external_body]
pub(crate) fn signature_accepted(key: &[u8], message: &[u8], signature: &[u8]) -> (r: bool)
    requires
        key@.len() == 32,
        ed25519_key(key@),
        signature@.len() == 64,
    ensures
        r == ed25519_signed(key@, message@, signature@),
{
    let key = ed25519_dalek::VerifyingKey::from_bytes(<&[u8; 32]>::try_from(key).unwrap()).unwrap();
    let signature = ed25519_dalek::Signature::from_bytes(<&[u8; 64]>::try_from(signature).unwrap());
    key.verify_strict(message, &signature).is_ok()
}

/// The public key that base64 text stands for, if it stands for one.
pub open spec fn public_key(text: Seq<char>) -> Option<Seq<u8>> {
    match base64_decoded(text) {
        Ok(bytes) => if bytes.len() == 32 && ed25519_key(bytes) {
            Some(bytes)
        } else {
            None
        },
        Err(_) => None,
    }
}

/// Reads a base64 public key.
pub(crate) fn decode_public_key(text: &str) -> (r: Option<Vec<u8>>)
    ensures
        match r {
            Some(key) => public_key(text@) == Some(key@),
            None => public_key(text@) is None,
        },
{
    match decode_base64(text) {
        Ok(bytes) => if bytes.len() == 32 && key_accepted(bytes.as_slice()) {
            Some(bytes)
        } else {
            None
        },
        Err(_) => None,
    }
}

/// The signature that base64 text stands for, if it stands for one.
pub open spec fn signature_bytes(text: Seq<char>) -> Option<Seq<u8>> {
    match base64_decoded(text) {
        Ok(bytes) => if bytes.len() == 64 {
            Some(bytes)
        } else {
            None
        },
        Err(_) => None,
    }
}

/// Reads a base64 signature.
pub(crate) fn decode_signature(text: &str) -> (r: Option<Vec<u8>>)
    ensures
        match r {
            Some(bytes) => signature_bytes(text@) == Some(bytes@),
            None => signature_bytes(text@) is None,
        },
{
    match decode_base64(text) {
        Ok(bytes) => if bytes.len() == 64 {
            Some(bytes)
        } else {
            None
        },
        Err(_) => None,
    }
}

} // verus!
