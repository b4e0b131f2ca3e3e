//! Key material modelled as plain byte vectors.
//!
//! The signature scheme's mathematics is delegated to an outside
//! cryptography crate; each call stands behind a trusted wrapper whose
//! result is named by an uninterpreted spec function, so that contracts
//! can speak of the result without restating the algorithm.

use vstd::prelude::*;
use sha2::Digest;
use ed25519_dalek::Signer;

verus! {

/// Byte length of a secret key and of a public key.
pub const KEY_LEN: usize = 32;

/// Byte length of a signature.
pub const SIG_LEN: usize = 64;

/// The 32-byte digest that the hash wrapper returns for the given bytes.
pub uninterp spec fn digest_of(data: Seq<u8>) -> Seq<u8>;

/// The public key that the scheme derives from a 32-byte secret key.
pub uninterp spec fn pk_of(sk: Seq<u8>) -> Seq<u8>;

/// The signature that the (deterministic) scheme produces for a secret key
/// and a message.
pub uninterp spec fn sig_of(sk: Seq<u8>, msg: Seq<u8>) -> Seq<u8>;

/// Relies on sha2::Sha256::digest: a 32-byte digest that depends on the
/// input bytes alone.
#[verifier::external_body]
pub(crate) fn sha256(data: &Vec<u8>) -> (r: Vec<u8>)
    ensures
        r@ == digest_of(data@),
        r@.len() == 32,
{
    sha2::Sha256::digest(data.as_slice()).to_vec()
}

/// Relies on ed25519_dalek::SigningKey::from_bytes and
/// SigningKey::verifying_key: the public key is a function of the 32
/// secret-key bytes alone, and is 32 bytes long.
#[verifier::external_body]
fn derive_public_bytes(sk: &Vec<u8>) -> (r: Vec<u8>)
    requires
        sk@.len() == 32,
    ensures
        r@ == pk_of(sk@),
        r@.len() == 32,
{
    let arr: [u8; 32] = sk.as_slice().try_into().unwrap();
    let signing = ed25519_dalek::SigningKey::from_bytes(&arr);
    signing.verifying_key().to_bytes().to_vec()
}

/// Relies on ed25519_dalek::SigningKey::sign: RFC 8032 signing is
/// deterministic in the secret key and the message, and the signature is
/// 64 bytes long.
#[verifier::external_body]
fn sign_raw(sk: &Vec<u8>, msg: &Vec<u8>) -> (r: Vec<u8>)
    requires
        sk@.len() == 32,
    ensures
        r@ == sig_of(sk@, msg@),
        r@.len() == 64,
{
    let arr: [u8; 32] = sk.as_slice().try_into().unwrap();
    let signing = ed25519_dalek::SigningKey::from_bytes(&arr);
    signing.sign(msg.as_slice()).to_bytes().to_vec()
}

/// Relies on ed25519_dalek::SigningKey::generate with rand_core::OsRng:
/// whatever bytes come back, there are 32 of them.
#[verifier::external_body]
fn random_key_bytes() -> (r: Vec<u8>)
    ensures
        r@.len() == 32,
{
    let signing = ed25519_dalek::SigningKey::generate(&mut rand_core::OsRng);
    signing.to_bytes().to_vec()
}

/// A secret key: 32 bytes of scheme-specific key material.
pub struct SecretKey {
    pub bytes: Vec<u8>,
}

/// A public key: 32 bytes of scheme-specific key material.
pub struct PublicKey {
    pub bytes: Vec<u8>,
}

/// A detached signature over a message.
pub struct Signature {
    pub bytes: Vec<u8>,
}

impl View for SecretKey {
    type V = Seq<u8>;

    open spec fn view(&self) -> Seq<u8> {
        self.bytes@
    }
}

impl View for PublicKey {
    type V = Seq<u8>;

    open spec fn view(&self) -> Seq<u8> {
        self.bytes@
    }
}

impl View for Signature {
    type V = Seq<u8>;

    open spec fn view(&self) -> Seq<u8> {
        self.bytes@
    }
}

impl SecretKey {
    /// A well-formed secret key holds exactly `KEY_LEN` bytes.
    pub open spec fn wf(&self) -> bool {
        self@.len() == KEY_LEN
    }

    /// Derive the public key that belongs to this secret key.
    pub fn to_public(&self) -> (r: PublicKey)
        requires
            self.wf(),
        ensures
            r@ == pk_of(self@),
            r.wf(),
    {
        PublicKey { bytes: derive_public_bytes(&self.bytes) }
    }

    /// An owned copy of this key.
    pub fn copied(&self) -> (r: SecretKey)
        ensures
            r@ == self@,
    {
        SecretKey { bytes: crate::util::copy_bytes(&self.bytes) }
    }
}

impl PublicKey {
    /// A well-formed public key holds exactly `KEY_LEN` bytes.
    pub open spec fn wf(&self) -> bool {
        self@.len() == KEY_LEN
    }

    /// The content-derived identifier of this public key.
    pub fn hash(&self) -> (r: Vec<u8>)
        ensures
            r@ == digest_of(self@),
            r@.len() == 32,
    {
        sha256(&self.bytes)
    }

    /// An owned copy of this key.
    pub fn copied(&self) -> (r: PublicKey)
        ensures
            r@ == self@,
    {
        PublicKey { bytes: crate::util::copy_bytes(&self.bytes) }
    }
}

impl Signature {
    /// A well-formed signature holds exactly `SIG_LEN` bytes.
    pub open spec fn wf(&self) -> bool {
        self@.len() == SIG_LEN
    }

    /// An owned copy of this signature.
    pub fn copied(&self) -> (r: Signature)
        ensures
            r@ == self@,
    {
        Signature { bytes: crate::util::copy_bytes(&self.bytes) }
    }
}

/// Generate a fresh secret key from the system's randomness source.
pub fn gen_secret_key() -> (r: SecretKey)
    ensures
        r.wf(),
{
    SecretKey { bytes: random_key_bytes() }
}

/// Sign a message with a secret key.
pub fn sign_message(sk: &SecretKey, msg: &Vec<u8>) -> (r: Signature)
    requires
        sk.wf(),
    ensures
        r@ == sig_of(sk@, msg@),
        r.wf(),
{
    Signature { bytes: sign_raw(&sk.bytes, msg) }
}

} // verus!
