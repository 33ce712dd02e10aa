//! The secret envelope for stored API keys: AES-256-GCM with a random
//! 12-byte nonce prefixing the ciphertext, the whole base64-encoded.
//!
//! Decrypting an envelope made with the same key yields the sealed text;
//! stored values that are no envelope fall back to being used literally
//! (plaintext development mode).

use vstd::prelude::*;

use aes_gcm::aead::Aead;
use aes_gcm::KeyInit;
use base64::Engine as _;

use vstd::utf8::{
    decode_utf8, decode_utf8_encode_utf8, encode_utf8, encode_utf8_decode_utf8,
    encode_utf8_valid_utf8, valid_utf8,
};

use crate::errors::GatewayError;

verus! {

/// What AES-256-GCM decryption yields for a key, nonce and ciphertext: the
/// plaintext bytes, or nothing when the ciphertext is inauthentic. A
/// function of its arguments alone.
pub uninterp spec fn aes_gcm_open(key: Seq<u8>, nonce: Seq<u8>, cipher: Seq<u8>) -> Option<Seq<u8>>;

/// What the standard base64 alphabet encodes a byte string to. A function of
/// the bytes alone.
pub uninterp spec fn b64_encode_of(bytes: Seq<u8>) -> Seq<char>;

/// Relies on aes_gcm::Aes256Gcm (an AEAD): decrypting what `encrypt`
/// produced, with the same key and nonce, yields the plaintext back.
#[verifier::external_body]
fn aes256_seal(key: &[u8], nonce: &[u8], plain: &[u8]) -> (r: Option<Vec<u8>>)
    ensures
        r matches Some(c) ==> aes_gcm_open(key@, nonce@, c@) == Some(plain@),
{
    let cipher = match aes_gcm::Aes256Gcm::new_from_slice(key) {
        Ok(c) => c,
        Err(_) => return None,
    };
    let nonce = match aes_gcm::Nonce::try_from(nonce) {
        Ok(n) => n,
        Err(_) => return None,
    };
    cipher.encrypt(&nonce, plain).ok()
}

/// Relies on aes_gcm::Aes256Gcm: authenticated decryption, a function of
/// key, nonce and ciphertext, named `aes_gcm_open`.
#[verifier::external_body]
fn aes256_open(key: &[u8], nonce: &[u8], cipher: &[u8]) -> (r: Option<Vec<u8>>)
    ensures
        match aes_gcm_open(key@, nonce@, cipher@) {
            Some(p) => r matches Some(v) && v@ == p,
            None => r is None,
        },
{
    let c = match aes_gcm::Aes256Gcm::new_from_slice(key) {
        Ok(c) => c,
        Err(_) => return None,
    };
    let nonce = match aes_gcm::Nonce::try_from(nonce) {
        Ok(n) => n,
        Err(_) => return None,
    };
    c.decrypt(&nonce, cipher).ok()
}

/// Relies on base64's STANDARD engine: encoding is a function of the bytes
/// alone, named `b64_encode_of`.
#[verifier::external_body]
fn b64_encode(bytes: &[u8]) -> (r: String)
    ensures
        r@ == b64_encode_of(bytes@),
{
    base64::engine::general_purpose::STANDARD.encode(bytes)
}

/// Relies on base64's STANDARD engine: decoding inverts encoding, and only
/// canonical encodings decode (the engine rejects bad padding and trailing
/// bits).
#[verifier::external_body]
fn b64_decode(s: &str) -> (r: Option<Vec<u8>>)
    ensures
        match r {
            Some(v) => s@ == b64_encode_of(v@) && (forall|b: Seq<u8>|
                s@ == b64_encode_of(b) ==> b == v@),
            None => forall|b: Seq<u8>| s@ != b64_encode_of(b),
        },
{
    base64::engine::general_purpose::STANDARD.decode(s).ok()
}

/// Relies on getrandom for the 12 nonce bytes; nothing is assumed of the
/// values.
#[verifier::external_body]
fn random_nonce() -> (r: Option<Vec<u8>>)
    ensures
        r matches Some(v) ==> v@.len() == 12,
{
    let mut n = vec![0u8; 12];
    match getrandom::getrandom(&mut n) {
        Ok(()) => Some(n),
        Err(_) => None,
    }
}

/// Relies on String::from_utf8: it succeeds exactly on valid UTF-8 and
/// yields its decoding.
#[verifier::external_body]
fn string_from_utf8(v: Vec<u8>) -> (r: Option<String>)
    ensures
        match r {
            Some(s) => valid_utf8(v@) && s@ == decode_utf8(v@),
            None => !valid_utf8(v@),
        },
{
    String::from_utf8(v).ok()
}

/// `enc` is the envelope of `plain` under `key`: base64 of a 12-byte nonce
/// followed by a ciphertext that opens to the UTF-8 bytes of `plain`.
pub open spec fn envelope_of(key: Seq<u8>, enc: Seq<char>, plain: Seq<char>) -> bool {
    exists|nonce: Seq<u8>, cipher: Seq<u8>|
        {
            &&& nonce.len() == 12
            &&& enc == b64_encode_of(nonce + cipher)
            &&& aes_gcm_open(key, nonce, cipher) == Some(encode_utf8(plain))
        }
}

pub struct Crypto;

impl Crypto {
    /// The 32 key bytes a master-key string stands for: its UTF-8 bytes,
    /// truncated or zero-padded to 32.
    pub fn master_key_bytes(s: &str) -> (key: Vec<u8>)
        ensures
            key@.len() == 32,
            forall|i: int|
                0 <= i < 32 ==> key@[i] == if i < encode_utf8(s@).len() {
                    encode_utf8(s@)[i]
                } else {
                    0u8
                },
    {
        let bytes = s.as_bytes();
        let mut key: Vec<u8> = Vec::new();
        let mut i: usize = 0;
        while i < 32
            invariant
                i <= 32,
                key@.len() == i,
                bytes@ == encode_utf8(s@),
                forall|j: int|
                    0 <= j < i ==> key@[j] == if j < encode_utf8(s@).len() {
                        encode_utf8(s@)[j]
                    } else {
                        0u8
                    },
            decreases 32 - i,
        {
            if i < bytes.len() {
                key.push(bytes[i]);
            } else {
                key.push(0);
            }
            i += 1;
        }
        key
    }

    /// Seal a text under the key: any result is an envelope of the text,
    /// and decrypting it under the same key gives the text back.
    pub fn encrypt(key: &Vec<u8>, plain: &str) -> (r: Result<String, GatewayError>)
        requires
            key@.len() == 32,
        ensures
            r matches Ok(enc) ==> envelope_of(key@, enc@, plain@),
    {
        let nonce = match random_nonce() {
            Some(n) => n,
            None => return Err(GatewayError::InternalError),
        };
        let pb = plain.as_bytes();
        let cipher = match aes256_seal(key.as_slice(), nonce.as_slice(), pb) {
            Some(c) => c,
            None => return Err(GatewayError::InternalError),
        };
        let ghost nonce_v = nonce@;
        let ghost cipher_v = cipher@;
        let mut combined = nonce;
        let mut cipher = cipher;
        combined.append(&mut cipher);
        let enc = b64_encode(combined.as_slice());
        proof {
            assert(combined@ == nonce_v + cipher_v);
            assert(pb@ == encode_utf8(plain@));
            assert(envelope_of(key@, enc@, plain@)) by {
                assert(nonce_v.len() == 12 && enc@ == b64_encode_of(nonce_v + cipher_v)
                    && aes_gcm_open(key@, nonce_v, cipher_v) == Some(encode_utf8(plain@)));
            }
        }
        Ok(enc)
    }

    /// Open a stored value as an envelope under the key. Whenever the value
    /// is an envelope of some text, that text comes back; and anything that
    /// comes back is what some envelope reading of the value holds, so
    /// decrypt after encrypt returns the text that was sealed.
    pub fn decrypt(key: &Vec<u8>, enc: &str) -> (r: Result<String, GatewayError>)
        requires
            key@.len() == 32,
        ensures
            forall|p: Seq<char>| envelope_of(key@, enc@, p) ==> (r matches Ok(s) && s@ == p),
            r matches Ok(s) ==> envelope_of(key@, enc@, s@),
    {
        let combined = match b64_decode(enc) {
            Some(v) => v,
            None => {
                proof {
                    assert forall|p: Seq<char>| !envelope_of(key@, enc@, p) by {
                        if envelope_of(key@, enc@, p) {
                            let (nonce, cipher) = choose|nonce: Seq<u8>, cipher: Seq<u8>|
                                nonce.len() == 12 && enc@ == b64_encode_of(nonce + cipher)
                                    && aes_gcm_open(key@, nonce, cipher) == Some(encode_utf8(p));
                            assert(false);
                        }
                    }
                }
                return Err(GatewayError::InternalError);
            },
        };
        if combined.len() < 12 {
            proof {
                assert forall|p: Seq<char>| !envelope_of(key@, enc@, p) by {
                    if envelope_of(key@, enc@, p) {
                        let (nonce, cipher) = choose|nonce: Seq<u8>, cipher: Seq<u8>|
                            nonce.len() == 12 && enc@ == b64_encode_of(nonce + cipher)
                                && aes_gcm_open(key@, nonce, cipher) == Some(encode_utf8(p));
                        assert(combined@ == nonce + cipher);
                        assert(false);
                    }
                }
            }
            return Err(GatewayError::InternalError);
        }
        let ghost combined_v = combined@;
        let mut nonce = combined;
        let cipher = nonce.split_off(12);
        let ghost nonce_v = nonce@;
        let ghost cipher_v = cipher@;
        proof {
            assert(nonce_v + cipher_v =~= combined_v);
            assert(enc@ == b64_encode_of(combined_v));
        }
        let opened = aes256_open(key.as_slice(), nonce.as_slice(), cipher.as_slice());
        match opened {
            Some(bytes) => {
                let ghost bytes_v = bytes@;
                match string_from_utf8(bytes) {
                    Some(s) => {
                        proof {
                            assert(aes_gcm_open(key@, nonce_v, cipher_v) == Some(bytes_v));
                            assert(valid_utf8(bytes_v));
                            decode_utf8_encode_utf8(bytes_v);
                            assert(encode_utf8(s@) == bytes_v);
                            assert(envelope_of(key@, enc@, s@)) by {
                                assert(nonce_v.len() == 12 && enc@ == b64_encode_of(
                                    nonce_v + cipher_v,
                                ) && aes_gcm_open(key@, nonce_v, cipher_v) == Some(
                                    encode_utf8(s@),
                                ));
                            }
                            assert forall|p: Seq<char>|
                                envelope_of(key@, enc@, p) implies s@ == p by {
                                let (n2, c2) = choose|n2: Seq<u8>, c2: Seq<u8>|
                                    n2.len() == 12 && enc@ == b64_encode_of(n2 + c2)
                                        && aes_gcm_open(key@, n2, c2) == Some(encode_utf8(p));
                                assert(nonce_v + cipher_v == n2 + c2);
                                assert(n2 =~= (n2 + c2).take(12));
                                assert(c2 =~= (n2 + c2).skip(12));
                                assert(nonce_v =~= (nonce_v + cipher_v).take(12));
                                assert(cipher_v =~= (nonce_v + cipher_v).skip(12));
                                assert(n2 == nonce_v && c2 == cipher_v);
                                assert(encode_utf8(p) == bytes_v);
                                encode_utf8_decode_utf8(p);
                                assert(p == decode_utf8(bytes_v));
                            }
                        }
                        Ok(s)
                    },
                    None => {
                        proof {
                            assert forall|p: Seq<char>| !envelope_of(key@, enc@, p) by {
                                if envelope_of(key@, enc@, p) {
                                    let (n2, c2) = choose|n2: Seq<u8>, c2: Seq<u8>|
                                        n2.len() == 12 && enc@ == b64_encode_of(n2 + c2)
                                            && aes_gcm_open(key@, n2, c2) == Some(encode_utf8(p));
                                    assert(nonce_v + cipher_v == n2 + c2);
                                    assert(nonce_v =~= (nonce_v + cipher_v).take(12));
                                    assert(cipher_v =~= (nonce_v + cipher_v).skip(12));
                                    assert(n2 =~= (n2 + c2).take(12));
                                    assert(c2 =~= (n2 + c2).skip(12));
                                    assert(bytes_v == encode_utf8(p));
                                    encode_utf8_valid_utf8(p);
                                    assert(false);
                                }
                            }
                        }
                        Err(GatewayError::InternalError)
                    },
                }
            },
            None => {
                proof {
                    assert forall|p: Seq<char>| !envelope_of(key@, enc@, p) by {
                        if envelope_of(key@, enc@, p) {
                            let (n2, c2) = choose|n2: Seq<u8>, c2: Seq<u8>|
                                n2.len() == 12 && enc@ == b64_encode_of(n2 + c2)
                                    && aes_gcm_open(key@, n2, c2) == Some(encode_utf8(p));
                            assert(nonce_v + cipher_v == n2 + c2);
                            assert(nonce_v =~= (nonce_v + cipher_v).take(12));
                            assert(cipher_v =~= (nonce_v + cipher_v).skip(12));
                            assert(n2 =~= (n2 + c2).take(12));
                            assert(c2 =~= (n2 + c2).skip(12));
                            assert(false);
                        }
                    }
                }
                Err(GatewayError::InternalError)
            },
        }
    }

    /// Resolve stored key material: an envelope under the master key opens
    /// to its text; anything else is used literally.
    pub fn decrypt_or_literal(key: &Vec<u8>, stored: &String) -> (r: String)
        requires
            key@.len() == 32,
        ensures
            forall|p: Seq<char>| envelope_of(key@, stored@, p) ==> r@ == p,
            (forall|p: Seq<char>| !envelope_of(key@, stored@, p)) ==> r@ == stored@,
    {
        match Crypto::decrypt(key, stored.as_str()) {
            Ok(s) => s,
            Err(_) => stored.clone(),
        }
    }
}

} // verus!
