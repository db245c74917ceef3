//! Message authentication and comparison of secrets.
use vstd::prelude::*;
use vstd::utf8::*;

use crate::base64url::{
    b64url_bytes, base64url, base64url_char, base64url_decoded, law_base64url_alphabet,
    law_base64url_decoding_inverts_encoding, law_base64url_length,
};
use crate::error::{outcome, AppError, Fault};

verus! {

/// Whether two texts are the same. Which bytes differ, and how many, does not
/// change how much is compared: only the lengths do.
pub fn ct_eq(a: &str, b: &str) -> (r: bool)
    ensures
        r == (a@ == b@),
{
    let x = a.as_bytes();
    let y = b.as_bytes();
    proof {
        encode_utf8_decode_utf8(a@);
        encode_utf8_decode_utf8(b@);
    }
    if x.len() != y.len() {
        return false;
    }
    let mut difference: u8 = 0;
    let mut i: usize = 0;
    while i < x.len()
        invariant
            i <= x.len(),
            x.len() == y.len(),
            difference == 0 <==> forall|j: int| 0 <= j < i ==> x@[j] == y@[j],
        decreases x.len() - i,
    {
        let ghost before = difference;
        let p: u8 = x[i];
        let q: u8 = y[i];
        difference = difference | (p ^ q);
        assert(before | (p ^ q) == 0 <==> before == 0 && p == q) by (bit_vector);
        i = i + 1;
    }
    assert(difference == 0 <==> x@ =~= y@);
    difference == 0
}

/// How a token is signed.
pub enum Algorithm {
    /// HMAC with SHA-256.
    Hs256,
    /// HMAC with SHA-512.
    Hs512,
}

/// The error of a key that a keyed hash does not take.
#[verifier::external_type_specification]
#[verifier::external_body]
pub struct ExInvalidLength(hmac::digest::InvalidLength);

/// The HMAC with SHA-256 of a message under a key, as `hmac::Hmac<sha2::Sha256>` computes it.
pub uninterp spec fn hmac_sha256(key: Seq<u8>, message: Seq<u8>) -> [u8; 32];

/// The HMAC with SHA-512 of a message under a key, as `hmac::Hmac<sha2::Sha512>` computes it.
pub uninterp spec fn hmac_sha512(key: Seq<u8>, message: Seq<u8>) -> [u8; 64];

/// `hmac::Hmac<sha2::Sha256>`, from `new_from_slice` over one `update` to
/// `finalize`. It takes a key of any length and gives thirty-two bytes.
#[verifier::external_body]
fn compute_hmac_sha256(key: &[u8], message: &[u8]) -> (tag: Result<
    [u8; 32],
    hmac::digest::InvalidLength,
>)
    ensures
        tag is Ok,
        tag->Ok_0@ == hmac_sha256(key@, message@)@,
{
    let mut mac = <hmac::Hmac<sha2::Sha256> as hmac::KeyInit>::new_from_slice(key)?;
    hmac::Mac::update(&mut mac, message);
    Ok(hmac::Mac::finalize(mac).into_bytes().into())
}

/// `hmac::Hmac<sha2::Sha512>`, from `new_from_slice` over one `update` to
/// `finalize`. It takes a key of any length and gives sixty-four bytes.
#[verifier::external_body]
fn compute_hmac_sha512(key: &[u8], message: &[u8]) -> (tag: Result<
    [u8; 64],
    hmac::digest::InvalidLength,
>)
    ensures
        tag is Ok,
        tag->Ok_0@ == hmac_sha512(key@, message@)@,
{
    let mut mac = <hmac::Hmac<sha2::Sha512> as hmac::KeyInit>::new_from_slice(key)?;
    hmac::Mac::update(&mut mac, message);
    Ok(hmac::Mac::finalize(mac).into_bytes().into())
}

/// The signature of a message: its HMAC under the secret, in base64.
pub open spec fn signature(algorithm: Algorithm, secret: Seq<char>, message: Seq<char>) -> Seq<char> {
    let key = encode_utf8(secret);
    let bytes = encode_utf8(message);
    match algorithm {
        Algorithm::Hs256 => base64url(hmac_sha256(key, bytes)@),
        Algorithm::Hs512 => base64url(hmac_sha512(key, bytes)@),
    }
}

/// How many characters a signature has.
pub open spec fn signature_length(algorithm: Algorithm) -> nat {
    match algorithm {
        Algorithm::Hs256 => 43,
        Algorithm::Hs512 => 86,
    }
}

/// A signature has as many characters as the algorithm asks, whatever is signed
/// and with whatever secret, and all of them are of the alphabet of base64.
pub proof fn law_signature_has_its_length(
    algorithm: Algorithm,
    secret: Seq<char>,
    message: Seq<char>,
)
    ensures
        signature(algorithm, secret, message).len() == signature_length(algorithm),
        forall|i: int|
            0 <= i < signature_length(algorithm) ==> base64url_char(
                #[trigger] signature(algorithm, secret, message)[i],
            ),
{
    let key = encode_utf8(secret);
    let bytes = encode_utf8(message);
    let tag = match algorithm {
        Algorithm::Hs256 => hmac_sha256(key, bytes)@,
        Algorithm::Hs512 => hmac_sha512(key, bytes)@,
    };
    law_base64url_length(tag);
    law_base64url_alphabet(tag);
}

/// Signs a message with HMAC and SHA-256.
pub fn sign_hs256(secret: &str, msg: &str) -> (signed: Result<String, AppError>)
    ensures
        outcome(signed) == Ok::<Seq<char>, Fault>(signature(Algorithm::Hs256, secret@, msg@)),
        signed is Ok,
        signed->Ok_0@.len() == 43,
        forall|i: int| 0 <= i < 43 ==> base64url_char(#[trigger] signed->Ok_0@[i]),
{
    proof {
        law_signature_has_its_length(Algorithm::Hs256, secret@, msg@);
    }
    match compute_hmac_sha256(secret.as_bytes(), msg.as_bytes()) {
        Ok(tag) => Ok(b64url_bytes(tag.as_slice())),
        Err(_) => Err(AppError::Crypto("Invalid Duo client secret".to_string())),
    }
}

/// Signs a message with HMAC and SHA-512.
pub fn sign_hs512(secret: &str, msg: &str) -> (signed: Result<String, AppError>)
    ensures
        outcome(signed) == Ok::<Seq<char>, Fault>(signature(Algorithm::Hs512, secret@, msg@)),
        signed is Ok,
        signed->Ok_0@.len() == 86,
        forall|i: int| 0 <= i < 86 ==> base64url_char(#[trigger] signed->Ok_0@[i]),
{
    proof {
        law_signature_has_its_length(Algorithm::Hs512, secret@, msg@);
    }
    match compute_hmac_sha512(secret.as_bytes(), msg.as_bytes()) {
        Ok(tag) => Ok(b64url_bytes(tag.as_slice())),
        Err(_) => Err(AppError::Crypto("Invalid Duo client secret".to_string())),
    }
}

/// A signature is the base64 of the message's HMAC, with the bytes of the secret as
/// the key and those of the message as they are.
pub proof fn law_signature_is_hmac(secret: Seq<char>, message: Seq<char>)
    ensures
        base64url_decoded(signature(Algorithm::Hs256, secret, message)) == Some(
            hmac_sha256(encode_utf8(secret), encode_utf8(message))@,
        ),
        base64url_decoded(signature(Algorithm::Hs512, secret, message)) == Some(
            hmac_sha512(encode_utf8(secret), encode_utf8(message))@,
        ),
{
    law_base64url_decoding_inverts_encoding(
        hmac_sha256(encode_utf8(secret), encode_utf8(message))@,
    );
    law_base64url_decoding_inverts_encoding(
        hmac_sha512(encode_utf8(secret), encode_utf8(message))@,
    );
}

} // verus!
