//! Default signature scheme of the rollup: ed25519 public keys and signatures
//! carried as plain byte vectors, a SHA-256 digest helper, and the derivation
//! of an account address from a public key.

use vstd::prelude::*;

verus! {

/// Number of bytes in a public key.
pub const PUBLIC_KEY_LENGTH: usize = 32;

/// Number of bytes in a signature.
pub const SIGNATURE_LENGTH: usize = 64;

/// The SHA-256 digest of a byte string.
pub uninterp spec fn sha256_of(bytes: Seq<u8>) -> Seq<u8>;

/// Whether `sig` is a valid ed25519 signature by the key `pk` over `msg`.
pub uninterp spec fn ed25519_verifies(pk: Seq<u8>, msg: Seq<u8>, sig: Seq<u8>) -> bool;

/// Relies on sha2::Sha256 (via the digest traits): the 32-byte digest is a
/// function of the input bytes alone.
#[verifier::external_body]
pub fn sha256(bytes: &Vec<u8>) -> (r: Vec<u8>)
    ensures
        r@ == sha256_of(bytes@),
        r@.len() == 32,
{
    let digest = <sha2::Sha256 as sha2::Digest>::digest(bytes.as_slice());
    digest.to_vec()
}

/// Relies on ed25519_dalek::PublicKey::{from_bytes, verify} and
/// ed25519_dalek::Signature::from_bytes: acceptance is a function of the key,
/// message and signature bytes alone; malformed keys or signatures are
/// rejected rather than panicking.
#[verifier::external_body]
fn ed25519_verify(pk: &Vec<u8>, msg: &Vec<u8>, sig: &Vec<u8>) -> (r: bool)
    ensures
        r == ed25519_verifies(pk@, msg@, sig@),
{
    let pk = match ed25519_dalek::PublicKey::from_bytes(pk.as_slice()) {
        Ok(k) => k,
        Err(_) => return false,
    };
    let sig = match ed25519_dalek::Signature::from_bytes(sig.as_slice()) {
        Ok(s) => s,
        Err(_) => return false,
    };
    ed25519_dalek::Verifier::verify(&pk, msg.as_slice(), &sig).is_ok()
}

/// An ed25519 public key, stored as its 32 raw bytes.
#[derive(Clone, Debug, PartialEq, Eq)]
pub struct DefaultPublicKey {
    bytes: Vec<u8>,
}

impl View for DefaultPublicKey {
    type V = Seq<u8>;

    closed spec fn view(&self) -> Seq<u8> {
        self.bytes@
    }
}

impl DefaultPublicKey {
    pub open spec fn wf(&self) -> bool {
        self@.len() == PUBLIC_KEY_LENGTH
    }

    pub fn new(pub_key: Vec<u8>) -> (r: Self)
        requires
            pub_key@.len() == PUBLIC_KEY_LENGTH,
        ensures
            r@ == pub_key@,
            r.wf(),
    {
        DefaultPublicKey { bytes: pub_key }
    }

    /// The canonical serialization: the raw key bytes.
    pub fn to_bytes(&self) -> (r: Vec<u8>)
        ensures
            r@ == self@,
    {
        crate::bytes::bytes_range(&self.bytes, 0, self.bytes.len())
    }

    /// Reads a key back from its canonical serialization.
    pub fn try_from_slice(bytes: &Vec<u8>) -> (r: Result<Self, KeyFormatError>)
        ensures
            bytes@.len() == PUBLIC_KEY_LENGTH <==> r is Ok,
            r matches Ok(k) ==> k@ == bytes@ && k.wf(),
    {
        if bytes.len() == PUBLIC_KEY_LENGTH {
            Ok(DefaultPublicKey { bytes: crate::bytes::bytes_range(bytes, 0, bytes.len()) })
        } else {
            Err(KeyFormatError::InvalidLength)
        }
    }

    /// The account address owned by this key: the SHA-256 digest of the key
    /// bytes.
    pub fn to_address(&self) -> (r: Address)
        ensures
            r@ == sha256_of(self@),
            r.wf(),
    {
        Address { bytes: sha256(&self.bytes) }
    }
}

/// An ed25519 signature, stored as its 64 raw bytes.
#[derive(Clone, Debug, PartialEq, Eq)]
pub struct DefaultSignature {
    bytes: Vec<u8>,
}

impl View for DefaultSignature {
    type V = Seq<u8>;

    closed spec fn view(&self) -> Seq<u8> {
        self.bytes@
    }
}

impl DefaultSignature {
    pub open spec fn wf(&self) -> bool {
        self@.len() == SIGNATURE_LENGTH
    }

    pub fn new(sig: Vec<u8>) -> (r: Self)
        requires
            sig@.len() == SIGNATURE_LENGTH,
        ensures
            r@ == sig@,
            r.wf(),
    {
        DefaultSignature { bytes: sig }
    }

    /// The canonical serialization: the raw signature bytes.
    pub fn to_bytes(&self) -> (r: Vec<u8>)
        ensures
            r@ == self@,
    {
        crate::bytes::bytes_range(&self.bytes, 0, self.bytes.len())
    }

    /// Reads a signature back from its canonical serialization.
    pub fn try_from_slice(bytes: &Vec<u8>) -> (r: Result<Self, KeyFormatError>)
        ensures
            bytes@.len() == SIGNATURE_LENGTH <==> r is Ok,
            r matches Ok(s) ==> s@ == bytes@ && s.wf(),
    {
        if bytes.len() == SIGNATURE_LENGTH {
            Ok(DefaultSignature { bytes: crate::bytes::bytes_range(bytes, 0, bytes.len()) })
        } else {
            Err(KeyFormatError::InvalidLength)
        }
    }

    /// Checks this signature against `pub_key` over the 32-byte `msg_hash`.
    pub fn verify(&self, pub_key: &DefaultPublicKey, msg_hash: &Vec<u8>) -> (r: Result<
        (),
        SigVerificationError,
    >)
        ensures
            r is Ok <==> ed25519_verifies(pub_key@, msg_hash@, self@),
    {
        if ed25519_verify(&pub_key.bytes, msg_hash, &self.bytes) {
            Ok(())
        } else {
            Err(SigVerificationError::BadSignature)
        }
    }
}

/// A byte string of the wrong length for the key, signature or address it
/// should become.
#[derive(Clone, Copy, Debug, PartialEq, Eq, Structural)]
pub enum KeyFormatError {
    InvalidLength,
}

/// Failure of stateless signature verification.
#[derive(Clone, Copy, Debug, PartialEq, Eq, Structural)]
pub enum SigVerificationError {
    BadSignature,
}

/// A rollup account address: 32 bytes, derived from a public key.
#[derive(Clone, Debug, PartialEq, Eq)]
pub struct Address {
    pub(crate) bytes: Vec<u8>,
}

impl View for Address {
    type V = Seq<u8>;

    closed spec fn view(&self) -> Seq<u8> {
        self.bytes@
    }
}

impl Address {
    pub open spec fn wf(&self) -> bool {
        self@.len() == 32
    }

    /// Accepts exactly 32 bytes as an address.
    pub fn try_from_bytes(addr: &Vec<u8>) -> (r: Result<Self, KeyFormatError>)
        ensures
            addr@.len() == 32 <==> r is Ok,
            r matches Ok(a) ==> a@ == addr@ && a.wf(),
    {
        if addr.len() == 32 {
            Ok(Address { bytes: crate::bytes::bytes_range(addr, 0, addr.len()) })
        } else {
            Err(KeyFormatError::InvalidLength)
        }
    }

    /// The raw address bytes.
    pub fn as_bytes(&self) -> (r: &Vec<u8>)
        ensures
            r@ == self@,
    {
        &self.bytes
    }
}

} // verus!
