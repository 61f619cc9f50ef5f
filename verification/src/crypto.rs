//! AES-256-GCM sealing of secrets, framed as base64 text.
//!
//! A sealed secret is `base64(nonce ++ ciphertext)`: a fresh 12-byte nonce
//! followed by the ciphertext-with-tag. The framing, length checks and
//! splitting are verified here; the cipher and the base64 codec are the
//! outside collaborators, relied on through the named results below.

use vstd::prelude::*;
use vstd::string::StrSliceExecFns;
use vstd::utf8::{decode_utf8, encode_utf8, valid_utf8};

verus! {

/// GCM nonce length in bytes.
pub const NONCE_SIZE: usize = 12;

/// AES-256 key length in bytes.
pub const KEY_SIZE: usize = 32;

/// GCM authentication tag length in bytes.
pub const TAG_SIZE: usize = 16;

/// The canonical standard-alphabet, padded base64 text of a byte string.
pub uninterp spec fn b64_of(b: Seq<u8>) -> Seq<char>;

/// The AES-256-GCM ciphertext-with-tag for a key, nonce and plaintext.
pub uninterp spec fn gcm_seal(key: Seq<u8>, nonce: Seq<u8>, pt: Seq<u8>) -> Seq<u8>;

/// What AES-256-GCM opens a ciphertext to under a key and nonce, if its
/// tag verifies.
pub uninterp spec fn gcm_open(key: Seq<u8>, nonce: Seq<u8>, ct: Seq<u8>) -> Option<Seq<u8>>;

/// Relies on base64's `STANDARD` engine: encoding produces the canonical
/// padded text of the bytes, four characters per three-byte group.
#[verifier::external_body]
fn b64_encode(b: &Vec<u8>) -> (r: String)
    ensures
        r@ == b64_of(b@),
        r@.len() == 4 * ((b@.len() + 2) / 3),
{
    base64::Engine::encode(&base64::engine::general_purpose::STANDARD, b)
}

/// Relies on base64's `STANDARD` engine: decoding succeeds exactly on
/// canonical encodings and inverts encoding.
#[verifier::external_body]
fn b64_decode(s: &str) -> (r: Option<Vec<u8>>)
    ensures
        match r {
            Some(d) => s@ == b64_of(d@) && (forall|b: Seq<u8>| s@ == b64_of(b) ==> b == d@),
            None => forall|b: Seq<u8>| s@ != b64_of(b),
        },
{
    base64::Engine::decode(&base64::engine::general_purpose::STANDARD, s).ok()
}

/// Relies on the operating system's randomness source, reached through
/// the cipher crate's re-export. Nothing is promised of the contents.
#[verifier::external_body]
fn random_bytes_32() -> (r: Option<Vec<u8>>)
    ensures
        match r {
            Some(b) => b@.len() == 32,
            None => true,
        },
{
    let mut buf = [0u8; 32];
    match aes_gcm::aead::common::getrandom::fill(&mut buf) {
        Ok(()) => Some(buf.to_vec()),
        Err(_) => None,
    }
}

/// As [`random_bytes_32`], for a GCM nonce.
#[verifier::external_body]
fn random_bytes_12() -> (r: Option<Vec<u8>>)
    ensures
        match r {
            Some(b) => b@.len() == 12,
            None => true,
        },
{
    let mut buf = [0u8; 12];
    match aes_gcm::aead::common::getrandom::fill(&mut buf) {
        Ok(()) => Some(buf.to_vec()),
        Err(_) => None,
    }
}

/// Relies on aes-gcm's `Aes256Gcm`: sealing appends the 16-byte tag, and
/// what it seals, the same key and nonce open back to the plaintext.
#[verifier::external_body]
fn aes256_seal(key: &Vec<u8>, nonce: &Vec<u8>, pt: &Vec<u8>) -> (r: Option<Vec<u8>>)
    requires
        key@.len() == 32,
        nonce@.len() == 12,
    ensures
        match r {
            Some(ct) => {
                &&& ct@ == gcm_seal(key@, nonce@, pt@)
                &&& ct@.len() == pt@.len() + TAG_SIZE
                &&& gcm_open(key@, nonce@, ct@) == Some(pt@)
            },
            None => true,
        },
{
    let cipher = match <aes_gcm::Aes256Gcm as aes_gcm::KeyInit>::new_from_slice(key) {
        Ok(c) => c,
        Err(_) => { return None; },
    };
    let mut nb = [0u8; 12];
    nb.copy_from_slice(nonce);
    let n: aes_gcm::Nonce<aes_gcm::aead::consts::U12> = aes_gcm::Nonce::from(nb);
    aes_gcm::aead::Aead::encrypt(&cipher, &n, pt.as_slice()).ok()
}

/// Relies on aes-gcm's `Aes256Gcm`: opening succeeds exactly when the tag
/// verifies, recovering the sealed plaintext.
#[verifier::external_body]
fn aes256_open(key: &Vec<u8>, nonce: &Vec<u8>, ct: &Vec<u8>) -> (r: Option<Vec<u8>>)
    requires
        key@.len() == 32,
        nonce@.len() == 12,
    ensures
        match r {
            Some(pt) => gcm_open(key@, nonce@, ct@) == Some(pt@),
            None => gcm_open(key@, nonce@, ct@) is None,
        },
{
    let cipher = match <aes_gcm::Aes256Gcm as aes_gcm::KeyInit>::new_from_slice(key) {
        Ok(c) => c,
        Err(_) => { return None; },
    };
    let mut nb = [0u8; 12];
    nb.copy_from_slice(nonce);
    let n: aes_gcm::Nonce<aes_gcm::aead::consts::U12> = aes_gcm::Nonce::from(nb);
    aes_gcm::aead::Aead::decrypt(&cipher, &n, ct.as_slice()).ok()
}

/// Relies on String::from_utf8: succeeds exactly on valid UTF-8, decoding
/// it to its characters.
#[verifier::external_body]
fn bytes_to_string(b: Vec<u8>) -> (r: Option<String>)
    ensures
        match r {
            Some(s) => valid_utf8(b@) && s@ == decode_utf8(b@),
            None => !valid_utf8(b@),
        },
{
    String::from_utf8(b).ok()
}

/// Generates a fresh 256-bit key, as base64 text.
pub fn generate_encryption_key() -> (r: Result<String, String>)
    ensures
        match r {
            Ok(k) => k@.len() == 44 && (exists|b: Seq<u8>|
                b.len() == 32 && k@ == #[trigger] b64_of(b)),
            Err(_) => true,
        },
{
    let bytes = match random_bytes_32() {
        Some(b) => b,
        None => { return Err("randomness is unavailable".to_owned()); },
    };
    let k = b64_encode(&bytes);
    Ok(k)
}

/// Seals `data` under the base64 `key`: decodes and checks the key,
/// draws a fresh nonce, seals, and frames the result as
/// `base64(nonce ++ ciphertext)`. A key that is not canonical base64 for
/// exactly 32 bytes is rejected.
pub fn encrypt_data(data: String, key: String) -> (r: Result<String, String>)
    ensures
        match r {
            Ok(e) => exists|kb: Seq<u8>, n: Seq<u8>|
                #![trigger gcm_seal(kb, n, encode_utf8(data@))]
                {
                    &&& key@ == b64_of(kb)
                    &&& kb.len() == 32
                    &&& n.len() == 12
                    &&& e@ == b64_of(n + gcm_seal(kb, n, encode_utf8(data@)))
                    &&& gcm_seal(kb, n, encode_utf8(data@)).len() == encode_utf8(data@).len()
                        + TAG_SIZE
                    &&& gcm_open(kb, n, gcm_seal(kb, n, encode_utf8(data@))) == Some(
                        encode_utf8(data@),
                    )
                },
            Err(_) => true,
        },
        (forall|b: Seq<u8>| key@ != #[trigger] b64_of(b)) ==> r is Err,
        (exists|b: Seq<u8>| key@ == #[trigger] b64_of(b) && b.len() != 32) ==> r is Err,
{
    let key_bytes = match b64_decode(key.as_str()) {
        Some(b) => b,
        None => { return Err("the key is not valid base64".to_owned()); },
    };
    if key_bytes.len() != KEY_SIZE {
        return Err("the key must be 32 bytes".to_owned());
    }
    let nonce = match random_bytes_12() {
        Some(n) => n,
        None => { return Err("randomness is unavailable".to_owned()); },
    };
    let pt = data.as_str().as_bytes_vec();
    let ct = match aes256_seal(&key_bytes, &nonce, &pt) {
        Some(c) => c,
        None => { return Err("sealing failed".to_owned()); },
    };
    let mut framed = nonce;
    let mut ct2 = ct;
    framed.append(&mut ct2);
    let e = b64_encode(&framed);
    Ok(e)
}

/// Opens a sealed secret: decodes the frame, splits the nonce off the
/// front, opens the ciphertext, and decodes the plaintext as text. Every
/// well-formed frame sealed under the same key opens to its original
/// plaintext; a tampered frame or a wrong key is rejected.
pub fn decrypt_data(encrypted_data: String, key: String) -> (r: Result<String, String>)
    ensures
        match r {
            Ok(s) => exists|kb: Seq<u8>, c: Seq<u8>|
                {
                    &&& key@ == #[trigger] b64_of(kb)
                    &&& kb.len() == 32
                    &&& encrypted_data@ == #[trigger] b64_of(c)
                    &&& c.len() >= 12
                    &&& gcm_open(kb, c.take(12), c.skip(12)) == Some(encode_utf8(s@))
                },
            Err(_) => true,
        },
        forall|kb: Seq<u8>, c: Seq<u8>, p: Seq<char>|
            (key@ == #[trigger] b64_of(kb) && kb.len() == 32 && encrypted_data@
                == #[trigger] b64_of(c) && c.len() >= 12 && gcm_open(kb, c.take(12), c.skip(12))
                == Some(#[trigger] encode_utf8(p))) ==> r is Ok && r->Ok_0@ == p,
{
    broadcast use vstd::utf8::encode_utf8_decode_utf8;
    broadcast use vstd::utf8::decode_utf8_encode_utf8;
    broadcast use vstd::utf8::encode_utf8_valid_utf8;

    let key_bytes = match b64_decode(key.as_str()) {
        Some(b) => b,
        None => { return Err("the key is not valid base64".to_owned()); },
    };
    if key_bytes.len() != KEY_SIZE {
        return Err("the key must be 32 bytes".to_owned());
    }
    let mut combined = match b64_decode(encrypted_data.as_str()) {
        Some(c) => c,
        None => { return Err("the sealed data is not valid base64".to_owned()); },
    };
    if combined.len() < NONCE_SIZE {
        return Err("the sealed data is too short".to_owned());
    }
    let ghost c = combined@;
    let ct = combined.split_off(NONCE_SIZE);
    let nonce = combined;
    proof {
        assert(nonce@ =~= c.take(12));
        assert(ct@ =~= c.skip(12));
    }
    let pt = match aes256_open(&key_bytes, &nonce, &ct) {
        Some(p) => p,
        None => { return Err("the data could not be opened".to_owned()); },
    };
    let ghost ptv = pt@;
    let s = match bytes_to_string(pt) {
        Some(s) => s,
        None => { return Err("the plaintext is not valid text".to_owned()); },
    };
    proof {
        assert(encode_utf8(s@) == ptv);
        assert(gcm_open(key_bytes@, c.take(12), c.skip(12)) == Some(encode_utf8(s@)));
    }
    Ok(s)
}

} // verus!
