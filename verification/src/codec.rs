//! The credential codec: secret keys kept plain or encrypted at rest.
//!
//! Encryption and decryption are delegated to an outside authenticated
//! cipher behind trusted wrappers; the key for the cipher is derived from
//! the password by the hash wrapper. A stored entry is never handed out
//! as a usable secret key without a successful decryption, and a failed
//! decryption is reported as its own error, never as "key absent".

use vstd::prelude::*;
use vstd::utf8::encode_utf8;
use vstd::string::StrSliceExecFns;
use chacha20poly1305::KeyInit;
use chacha20poly1305::aead::Aead;
use crate::keys::{digest_of, sha256, SecretKey, KEY_LEN};
use crate::password::Password;

verus! {

/// The ciphertext that the cipher produces for a derived key and a
/// plaintext.
pub uninterp spec fn seal_of(key: Seq<u8>, plain: Seq<u8>) -> Seq<u8>;

/// The outcome of decrypting a ciphertext under a derived key: the
/// plaintext, or nothing when authentication fails.
pub uninterp spec fn open_of(key: Seq<u8>, cipher: Seq<u8>) -> Option<Seq<u8>>;

/// The cipher key derived from a password: the digest of its text bytes.
pub open spec fn pwd_key(pwd: Seq<char>) -> Seq<u8> {
    digest_of(encode_utf8(pwd))
}

/// Relies on chacha20poly1305::ChaCha20Poly1305::encrypt with a fixed
/// all-zero nonce: the ciphertext is a function of key and plaintext
/// alone, and decrypting it under the same key recovers the plaintext.
#[verifier::external_body]
fn aead_seal(key: &Vec<u8>, plain: &Vec<u8>) -> (r: Vec<u8>)
    requires
        key@.len() == 32,
        plain@.len() < 0x10000000,
    ensures
        r@ == seal_of(key@, plain@),
        open_of(key@, r@) == Some(plain@),
{
    let cipher = chacha20poly1305::ChaCha20Poly1305::new(
        chacha20poly1305::Key::from_slice(key.as_slice()),
    );
    let nonce = [0u8; 12];
    cipher.encrypt(chacha20poly1305::Nonce::from_slice(&nonce), plain.as_slice()).unwrap()
}

/// Relies on chacha20poly1305::ChaCha20Poly1305::decrypt with the same
/// fixed nonce: the outcome is a function of key and ciphertext alone,
/// and an authentication failure comes back as nothing.
#[verifier::external_body]
fn aead_open(key: &Vec<u8>, sealed: &Vec<u8>) -> (r: Option<Vec<u8>>)
    requires
        key@.len() == 32,
    ensures
        match r {
            Some(p) => open_of(key@, sealed@) == Some(p@),
            None => open_of(key@, sealed@) is None,
        },
{
    let cipher = chacha20poly1305::ChaCha20Poly1305::new(
        chacha20poly1305::Key::from_slice(key.as_slice()),
    );
    let nonce = [0u8; 12];
    cipher.decrypt(chacha20poly1305::Nonce::from_slice(&nonce), sealed.as_slice()).ok()
}

/// Derive the cipher key for a password.
fn derive_key(pwd: &Password) -> (r: Vec<u8>)
    ensures
        r@ == pwd_key(pwd@),
        r@.len() == 32,
{
    let bytes = pwd.text.as_str().as_bytes_vec();
    sha256(&bytes)
}

/// A secret key as it rests in the store: plain, or sealed under a
/// password-derived key.
pub enum StoredKeypair {
    Plain(SecretKey),
    Encrypted(Vec<u8>),
}

/// Why an encrypted entry could not be turned into a usable secret key.
/// Each of these is distinct from "key absent".
#[derive(Debug)]
pub enum DecryptionError {
    /// The entry is encrypted and no password was supplied.
    MissingPassword,
    /// The supplied password does not open the entry.
    WrongPassword,
    /// The entry opened, but what it held is not key material.
    BadKeyMaterial,
}

/// The mathematical value of a stored entry: which variant it is, and the
/// bytes it holds.
pub enum StoredKeypairV {
    Plain(Seq<u8>),
    Encrypted(Seq<u8>),
}

impl View for StoredKeypair {
    type V = StoredKeypairV;

    open spec fn view(&self) -> StoredKeypairV {
        match *self {
            StoredKeypair::Plain(sk) => StoredKeypairV::Plain(sk@),
            StoredKeypair::Encrypted(sealed) => StoredKeypairV::Encrypted(sealed@),
        }
    }
}

impl StoredKeypair {
    /// A well-formed stored entry: a plain entry holds a well-formed key.
    pub open spec fn wf(&self) -> bool {
        match self@ {
            StoredKeypairV::Plain(sk) => sk.len() == KEY_LEN,
            StoredKeypairV::Encrypted(_) => true,
        }
    }

    /// An owned copy of this entry.
    pub fn copied(&self) -> (r: StoredKeypair)
        ensures
            r@ == self@,
    {
        match self {
            StoredKeypair::Plain(sk) => StoredKeypair::Plain(sk.copied()),
            StoredKeypair::Encrypted(c) => StoredKeypair::Encrypted(crate::util::copy_bytes(c)),
        }
    }
}

/// What decrypting a stored entry with an optional password yields.
pub open spec fn spec_decrypt(kp: StoredKeypairV, pwd: Option<Seq<char>>) -> Result<
    Seq<u8>,
    DecryptionError,
> {
    match kp {
        StoredKeypairV::Plain(sk) => Ok(sk),
        StoredKeypairV::Encrypted(sealed) => match pwd {
            None => Err(DecryptionError::MissingPassword),
            Some(p) => match open_of(pwd_key(p), sealed) {
                Some(plain) => if plain.len() == KEY_LEN {
                    Ok(plain)
                } else {
                    Err(DecryptionError::BadKeyMaterial)
                },
                None => Err(DecryptionError::WrongPassword),
            },
        },
    }
}

/// The view of an optional borrowed password.
pub open spec fn pwd_view(pwd: Option<&Password>) -> Option<Seq<char>> {
    match pwd {
        Some(p) => Some(p@),
        None => None,
    }
}

/// Seal a secret key under a password. Decrypting the result with the
/// same password yields the key back.
pub fn encrypt_keypair(sk: &SecretKey, pwd: &Password) -> (r: StoredKeypair)
    requires
        sk.wf(),
    ensures
        r@ matches StoredKeypairV::Encrypted(sealed) && sealed == seal_of(pwd_key(pwd@), sk@),
        spec_decrypt(r@, Some(pwd@)) == Ok::<Seq<u8>, DecryptionError>(sk@),
        r.wf(),
{
    let key = derive_key(pwd);
    StoredKeypair::Encrypted(aead_seal(&key, &sk.bytes))
}

/// Turn a stored entry into a usable secret key, decrypting it with the
/// supplied password when it is encrypted.
pub fn decrypt_keypair(kp: &StoredKeypair, pwd: Option<&Password>) -> (r: Result<
    SecretKey,
    DecryptionError,
>)
    requires
        kp.wf(),
    ensures
        match r {
            Ok(sk) => spec_decrypt(kp@, pwd_view(pwd)) == Ok::<Seq<u8>, DecryptionError>(sk@)
                && sk.wf(),
            Err(e) => spec_decrypt(kp@, pwd_view(pwd)) == Err::<Seq<u8>, DecryptionError>(e),
        },
{
    match kp {
        StoredKeypair::Plain(sk) => Ok(sk.copied()),
        StoredKeypair::Encrypted(sealed) => match pwd {
            None => Err(DecryptionError::MissingPassword),
            Some(p) => {
                let key = derive_key(p);
                match aead_open(&key, sealed) {
                    None => Err(DecryptionError::WrongPassword),
                    Some(plain) => {
                        if plain.len() == KEY_LEN {
                            Ok(SecretKey { bytes: plain })
                        } else {
                            Err(DecryptionError::BadKeyMaterial)
                        }
                    },
                }
            },
        },
    }
}

} // verus!
