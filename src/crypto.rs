//! The cryptography of the pairing handshake. Each operation is done by an
//! outside crate; what is stated of it is what that crate documents.
use vstd::prelude::*;
use vstd::utf8::{valid_utf8, decode_utf8};
use base64::Engine;
use rsa::pkcs8::EncodePublicKey;
use sha2::Digest;

verus! {

#[verifier::external_type_specification]
#[verifier::external_body]
pub struct ExRsaPrivateKey(rsa::RsaPrivateKey);

#[verifier::external_type_specification]
#[verifier::external_body]
pub struct ExRsaError(rsa::Error);

#[verifier::external_type_specification]
#[verifier::external_body]
pub struct ExSpkiError(rsa::pkcs8::spki::Error);

#[verifier::external_type_specification]
#[verifier::external_body]
pub struct ExBase64DecodeError(base64::DecodeError);

#[verifier::external_type_specification]
#[verifier::external_body]
pub struct ExFromUtf8Error(std::string::FromUtf8Error);

/// The size of the handshake's key pairs, in bits.
pub const KEY_BITS: usize = 2048;

/// Relies on rsa::RsaPrivateKey::new, fed by rand's thread_rng: a fresh key
/// pair of `bits` bits. Nothing can be stated of a random key.
#[verifier::external_body]
pub fn generate_private_key(bits: usize) -> Result<rsa::RsaPrivateKey, rsa::Error> {
    rsa::RsaPrivateKey::new(&mut rand::thread_rng(), bits)
}

/// Relies on rsa's EncodePublicKey::to_public_key_der, applied to the
/// public half of `key`: its SubjectPublicKeyInfo encoding in DER.
#[verifier::external_body]
pub fn public_key_der(key: &rsa::RsaPrivateKey) -> Result<Vec<u8>, rsa::pkcs8::spki::Error> {
    match rsa::RsaPublicKey::from(key).to_public_key_der() {
        Ok(doc) => Ok(doc.into_vec()),
        Err(e) => Err(e),
    }
}

/// Relies on rsa::RsaPrivateKey::decrypt with OAEP padding over SHA-256.
/// The key is opaque here, so nothing is stated of the plaintext.
#[verifier::external_body]
pub fn decrypt_oaep_sha256(key: &rsa::RsaPrivateKey, ciphertext: &Vec<u8>) -> Result<Vec<u8>, rsa::Error> {
    key.decrypt(rsa::Oaep::new::<sha2::Sha256>(), ciphertext.as_slice())
}

/// The SHA-256 digest of `b`.
pub uninterp spec fn sha256(b: Seq<u8>) -> Seq<u8>;

/// Relies on sha2::Sha256's Digest::digest: the 32-byte SHA-256 digest.
#[verifier::external_body]
pub fn sha256_digest(b: &Vec<u8>) -> (r: Vec<u8>)
    ensures
        r@ == sha256(b@),
        r@.len() == 32,
{
    sha2::Sha256::digest(b.as_slice()).to_vec()
}

/// `b` in base64 with the standard alphabet, padded.
pub uninterp spec fn base64_standard(b: Seq<u8>) -> Seq<char>;

/// Relies on base64's STANDARD engine, Engine::encode.
#[verifier::external_body]
pub fn encode_base64(b: &Vec<u8>) -> (r: String)
    ensures
        r@ == base64_standard(b@),
{
    base64::engine::general_purpose::STANDARD.encode(b.as_slice())
}

/// `b` in base64 with the URL-safe alphabet, unpadded.
pub uninterp spec fn base64_url_unpadded(b: Seq<u8>) -> Seq<char>;

/// Relies on base64's URL_SAFE_NO_PAD engine, Engine::encode.
#[verifier::external_body]
pub fn encode_base64_url(b: &Vec<u8>) -> (r: String)
    ensures
        r@ == base64_url_unpadded(b@),
{
    base64::engine::general_purpose::URL_SAFE_NO_PAD.encode(b.as_slice())
}

/// The bytes that the standard-alphabet base64 text `s` encodes; `None` when
/// `s` is not such a text.
pub uninterp spec fn base64_standard_decoded(s: Seq<char>) -> Option<Seq<u8>>;

/// Relies on base64's STANDARD engine, Engine::decode.
#[verifier::external_body]
pub fn decode_base64(s: &str) -> (r: Result<Vec<u8>, base64::DecodeError>)
    ensures
        r is Ok <==> base64_standard_decoded(s@) is Some,
        r matches Ok(v) ==> v@ == base64_standard_decoded(s@)->0,
{
    base64::engine::general_purpose::STANDARD.decode(s)
}

/// Relies on String::from_utf8: succeeds exactly on valid UTF-8, with the
/// characters that the bytes encode.
#[verifier::external_body]
pub fn utf8_text(b: Vec<u8>) -> (r: Result<String, std::string::FromUtf8Error>)
    ensures
        r is Ok <==> valid_utf8(b@),
        r matches Ok(t) ==> t@ == decode_utf8(b@),
{
    String::from_utf8(b)
}

} // verus!
