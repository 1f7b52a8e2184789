//! Credential store: sealing stored passwords at rest.
//!
//! A password is sealed with AES-256-GCM under the store's key and a
//! fresh random nonce, the nonce and ciphertext are packed together and
//! base64-encoded.  Opening inverts the packing and the seal.  The key
//! itself, and the files the sealed credentials live in, are the
//! application's business.

use vstd::prelude::*;

use vstd::slice::slice_subrange;
use vstd::string::StringSliceAdditionalSpecFns;
use vstd::utf8::{decode_utf8, encode_utf8, encode_utf8_decode_utf8, encode_utf8_valid_utf8, valid_utf8};

use aes_gcm::aead::{Aead, KeyInit};
use aes_gcm::{Aes256Gcm, Nonce};
use base64::engine::general_purpose;
use base64::Engine;
use rand::RngCore;

use crate::errors::{LovelyResError, LovelyResResult};
use crate::types::AppDataPaths;

verus! {

/// The AES-256-GCM ciphertext, tag included, for a key, nonce and
/// plaintext.
pub uninterp spec fn aead_seal(key: Seq<u8>, nonce: Seq<u8>, plain: Seq<u8>) -> Seq<u8>;

/// The standard-alphabet base64 rendering of a byte sequence.
pub uninterp spec fn b64_chars_of(bytes: Seq<u8>) -> Seq<char>;

/// Relies on aes_gcm's `Aead::encrypt` for AES-256-GCM: the ciphertext is
/// a function of key, nonce and plaintext alone, sixteen tag bytes longer
/// than the plaintext.
#[verifier::external_body]
fn aes256_gcm_seal(key: &[u8], nonce: &[u8], plain: &[u8]) -> (r: Option<Vec<u8>>)
    requires
        key@.len() == 32,
        nonce@.len() == 12,
    ensures
        r matches Some(c) ==> (c@ == aead_seal(key@, nonce@, plain@) && c@.len() == plain@.len()
            + 16),
{
    let cipher = Aes256Gcm::new_from_slice(key).ok()?;
    cipher.encrypt(Nonce::from_slice(nonce), plain).ok()
}

/// What opening a sealed box must give: for every plaintext this input
/// seals, exactly that plaintext.
pub open spec fn open_inverts_seal(
    key: Seq<u8>,
    nonce: Seq<u8>,
    sealed: Seq<u8>,
    r: Option<Vec<u8>>,
) -> bool {
    forall|p: Seq<u8>|
        sealed == #[trigger] aead_seal(key, nonce, p) ==> (r matches Some(q) && q@ == p)
}

/// Relies on aes_gcm's `Aead::decrypt` for AES-256-GCM: it inverts the
/// seal made with the same key and nonce.
#[verifier::external_body]
fn aes256_gcm_open(key: &[u8], nonce: &[u8], sealed: &[u8]) -> (r: Option<Vec<u8>>)
    requires
        key@.len() == 32,
        nonce@.len() == 12,
    ensures
        open_inverts_seal(key@, nonce@, sealed@, r),
{
    let cipher = Aes256Gcm::new_from_slice(key).ok()?;
    cipher.decrypt(Nonce::from_slice(nonce), sealed).ok()
}

/// Relies on base64's standard-alphabet engine: encoding is a pure
/// function of the bytes.
#[verifier::external_body]
fn b64_encode(data: &[u8]) -> (r: String)
    ensures
        r@ == b64_chars_of(data@),
{
    general_purpose::STANDARD.encode(data)
}

/// What decoding must give: for every byte sequence this text encodes,
/// exactly those bytes.
pub open spec fn decode_inverts_encode(text: Seq<char>, r: Option<Vec<u8>>) -> bool {
    forall|b: Seq<u8>| text == #[trigger] b64_chars_of(b) ==> (r matches Some(v) && v@ == b)
}

/// Relies on base64's standard-alphabet decode: it inverts the encoding.
#[verifier::external_body]
fn b64_decode(text: &str) -> (r: Option<Vec<u8>>)
    ensures
        decode_inverts_encode(text@, r),
{
    general_purpose::STANDARD.decode(text).ok()
}

/// Relies on rand's `OsRng::fill_bytes`: twelve bytes from the operating
/// system's generator; nothing is promised of their values.
#[verifier::external_body]
fn random_nonce() -> (r: Vec<u8>)
    ensures
        r@.len() == 12,
{
    let mut nonce = [0u8; 12];
    rand::rngs::OsRng.fill_bytes(&mut nonce);
    nonce.to_vec()
}

/// Relies on std's `String::from_utf8`: it accepts exactly the valid
/// UTF-8 byte sequences and decodes them.
#[verifier::external_body]
fn string_from_utf8(v: Vec<u8>) -> (r: Option<String>)
    ensures
        r is Some <==> valid_utf8(v@),
        r matches Some(s) ==> s@ == decode_utf8(v@),
{
    String::from_utf8(v).ok()
}

/// Store of connection credentials: where they live on disk and the key
/// that seals the passwords.
#[derive(Debug)]
pub struct SSHConnectionManager {
    pub data_paths: AppDataPaths,
    /// The 32-byte AES-256 key.
    pub encryption_key: Vec<u8>,
}

impl SSHConnectionManager {
    /// A usable store carries a full-length key.
    pub open spec fn well_formed(self) -> bool {
        self.encryption_key@.len() == 32
    }

    /// A store over `data_paths` sealing with `encryption_key`; the key
    /// must be exactly 32 bytes.  The application loads or generates the
    /// key and creates the directories.
    pub fn new(data_paths: AppDataPaths, encryption_key: Vec<u8>) -> (r: LovelyResResult<Self>)
        ensures
            encryption_key@.len() == 32 ==> (r matches Ok(m) && m.well_formed()
                && m.encryption_key == encryption_key && m.data_paths == data_paths),
            encryption_key@.len() != 32 ==> r matches Err(LovelyResError::ConfigError(_)),
    {
        if encryption_key.len() != 32 {
            return Err(LovelyResError::ConfigError("Encryption key must be 32 bytes".to_owned()));
        }
        Ok(Self { data_paths, encryption_key })
    }

    /// Seals a password: a fresh random nonce, the AES-256-GCM
    /// ciphertext, and the two packed and base64-encoded.
    pub fn encrypt_password(&self, password: &str) -> (r: LovelyResResult<String>)
        requires
            self.well_formed(),
        ensures
            r matches Ok(s) ==> exists|n: Seq<u8>|
                n.len() == 12 && s@ == #[trigger] b64_chars_of(
                    n + aead_seal(self.encryption_key@, n, encode_utf8(password@)),
                ),
    {
        let nonce = random_nonce();
        let sealed = aes256_gcm_seal(
            self.encryption_key.as_slice(),
            nonce.as_slice(),
            password.as_bytes(),
        );
        match sealed {
            None => Err(LovelyResError::AuthError("Password encryption failed".to_owned())),
            Some(mut ciphertext) => {
                let mut packed = nonce;
                let ghost nonce_bytes: Seq<u8> = packed@;
                packed.append(&mut ciphertext);
                let encoded = b64_encode(packed.as_slice());
                proof {
                    assert(packed@ == nonce_bytes + aead_seal(
                        self.encryption_key@,
                        nonce_bytes,
                        password.spec_bytes(),
                    ));
                }
                Ok(encoded)
            },
        }
    }

    /// Opens a sealed password.
    ///
    /// Whatever [`Self::encrypt_password`] produced under the same key
    /// comes back exactly: for every plaintext and nonce whose packing
    /// this input is, the result is that plaintext.
    pub fn decrypt_password(&self, encrypted_password: &str) -> (r: LovelyResResult<String>)
        requires
            self.well_formed(),
        ensures
            forall|p: Seq<char>, n: Seq<u8>|
                (n.len() == 12 && encrypted_password@ == #[trigger] b64_chars_of(
                    n + aead_seal(self.encryption_key@, n, encode_utf8(p)),
                )) ==> (r matches Ok(q) && q@ == p),
            // input that decodes to fewer bytes than a nonce is malformed
            forall|b: Seq<u8>|
                (b.len() < 12 && encrypted_password@ == #[trigger] b64_chars_of(b)) ==> r matches Err(
                    LovelyResError::AuthError(_),
                ),
    {
        let decoded = b64_decode(encrypted_password);
        match decoded {
            None => Err(LovelyResError::AuthError("Base64 decoding failed".to_owned())),
            Some(data) => {
                if data.len() < 12 {
                    proof {
                        lemma_short_packing(encrypted_password@, self.encryption_key@, data@);
                    }
                    return Err(
                        LovelyResError::AuthError("Malformed encrypted credential".to_owned()),
                    );
                }
                let nonce = slice_subrange(data.as_slice(), 0, 12);
                let sealed = slice_subrange(data.as_slice(), 12, data.len());
                let opened = aes256_gcm_open(self.encryption_key.as_slice(), nonce, sealed);
                match opened {
                    None => {
                        proof {
                            assert forall|p: Seq<char>, n: Seq<u8>|
                                (n.len() == 12 && encrypted_password@ == #[trigger] b64_chars_of(
                                    n + aead_seal(self.encryption_key@, n, encode_utf8(p)),
                                )) implies false by {
                                assert(data@ == n + aead_seal(
                                    self.encryption_key@,
                                    n,
                                    encode_utf8(p),
                                ));
                                assert(sealed@ =~= aead_seal(self.encryption_key@, n, encode_utf8(p)))
                                    by {
                                    assert(nonce@ =~= n);
                                }
                                assert(nonce@ =~= n);
                            }
                        }
                        Err(LovelyResError::AuthError("Password decryption failed".to_owned()))
                    },
                    Some(plain) => {
                        let ghost plain_bytes: Seq<u8> = plain@;
                        let text = string_from_utf8(plain);
                        proof {
                            assert forall|p: Seq<char>, n: Seq<u8>|
                                (n.len() == 12 && encrypted_password@ == #[trigger] b64_chars_of(
                                    n + aead_seal(self.encryption_key@, n, encode_utf8(p)),
                                )) implies (text matches Some(q) && q@ == p) by {
                                assert(data@ == n + aead_seal(
                                    self.encryption_key@,
                                    n,
                                    encode_utf8(p),
                                ));
                                assert(nonce@ =~= n);
                                assert(sealed@ =~= aead_seal(self.encryption_key@, n, encode_utf8(p)));
                                assert(plain_bytes == encode_utf8(p));
                                encode_utf8_valid_utf8(p);
                                encode_utf8_decode_utf8(p);
                            }
                        }
                        match text {
                            None => Err(
                                LovelyResError::AuthError(
                                    "Decrypted bytes are not valid text".to_owned(),
                                ),
                            ),
                            Some(s) => Ok(s),
                        }
                    },
                }
            },
        }
    }
}

/// A packing always carries at least the nonce and the tag; decoded bytes
/// shorter than a nonce cannot be one.
proof fn lemma_short_packing(text: Seq<char>, key: Seq<u8>, data: Seq<u8>)
    requires
        data.len() < 12,
        forall|b: Seq<u8>| text == b64_chars_of(b) ==> data == b,
    ensures
        forall|p: Seq<char>, n: Seq<u8>|
            !(n.len() == 12 && text == #[trigger] b64_chars_of(n + aead_seal(key, n, encode_utf8(p)))),
{
    assert forall|p: Seq<char>, n: Seq<u8>|
        !(n.len() == 12 && text == #[trigger] b64_chars_of(n + aead_seal(key, n, encode_utf8(p))))
        by {
        if n.len() == 12 && text == b64_chars_of(n + aead_seal(key, n, encode_utf8(p))) {
            assert(data == n + aead_seal(key, n, encode_utf8(p)));
            assert(data.len() >= 12);
        }
    }
}

} // verus!
