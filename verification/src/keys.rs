//! Keys and signatures.
//!
//! Keys are held in their protobuf encoding, the form in which they are stored and exchanged.
//! Decoding, signing and verifying are the work of `libp2p_identity`; this module names
//! what it computes. Of the cryptography it states one thing: what a pair signs verifies
//! under the pair's public key.

use crate::error::InvalidKey;
use vstd::prelude::*;
use vstd::slice::slice_to_vec;

verus! {

/// Whether `signature` is one of `message` under the public key with encoding `public_key`:
/// what `PublicKey::verify` answers for the key that `public_key` decodes to, and `false`
/// where it does not decode.
pub uninterp spec fn signature_verifies(public_key: Seq<u8>, message: Seq<u8>, signature: Seq<u8>) -> bool;

/// The encoding, as `PublicKey::encode_protobuf` writes it, of the public key that `bytes`
/// decode to with `PublicKey::try_decode_protobuf`; `None` where they do not decode.
pub uninterp spec fn decoded_public_key(bytes: Seq<u8>) -> Option<Seq<u8>>;

/// The encoding of the public key of the keypair that `keypair` decodes to with
/// `Keypair::from_protobuf_encoding`; `None` where it does not decode.
pub uninterp spec fn keypair_public(keypair: Seq<u8>) -> Option<Seq<u8>>;

/// Calls `PublicKey::try_decode_protobuf` on `public_key` and `PublicKey::verify` on the
/// key that comes out. The contract only names the answer.
#[verifier::external_body]
pub(crate) fn verify_signature(public_key: &[u8], message: &[u8], signature: &[u8]) -> (valid:
    bool)
    ensures
        valid == signature_verifies(public_key@, message@, signature@),
{
    match libp2p_identity::PublicKey::try_decode_protobuf(public_key) {
        Ok(key) => key.verify(message, signature),
        Err(_) => false,
    }
}

/// Calls `PublicKey::try_decode_protobuf` on `bytes` and `PublicKey::encode_protobuf` on the
/// key that comes out. The contract only names the result.
#[verifier::external_body]
pub(crate) fn decode_public_key(bytes: &[u8]) -> (encoded: Option<Vec<u8>>)
    ensures
        match decoded_public_key(bytes@) {
            Some(key) => encoded matches Some(e) && e@ == key,
            None => encoded is None,
        },
{
    match libp2p_identity::PublicKey::try_decode_protobuf(bytes) {
        Ok(key) => Some(key.encode_protobuf()),
        Err(_) => None,
    }
}

/// Calls `Keypair::from_protobuf_encoding` on `keypair`, then `Keypair::public` and
/// `PublicKey::encode_protobuf`. The contract only names the result.
#[verifier::external_body]
pub(crate) fn public_key_of_keypair(keypair: &[u8]) -> (encoded: Option<Vec<u8>>)
    ensures
        match keypair_public(keypair@) {
            Some(key) => encoded matches Some(e) && e@ == key,
            None => encoded is None,
        },
{
    match libp2p_identity::Keypair::from_protobuf_encoding(keypair) {
        Ok(pair) => Some(pair.public().encode_protobuf()),
        Err(_) => None,
    }
}

/// Calls `Keypair::from_protobuf_encoding` on `keypair` and `Keypair::sign` on the pair that
/// comes out. `None` where the bytes do not decode or the signer fails. The contract claims
/// what `Keypair::sign` is documented to give: a signature that verifies under the public
/// key of the pair. Which signature that is stays open, as a signer may draw on the
/// system's randomness, and so does whether a pair that decodes signs.
#[verifier::external_body]
pub(crate) fn sign_with_keypair(keypair: &[u8], message: &[u8]) -> (signature: Option<Vec<u8>>)
    ensures
        match signature {
            Some(s) => keypair_public(keypair@) matches Some(key) && signature_verifies(
                key,
                message@,
                s@,
            ),
            None => true,
        },
{
    match libp2p_identity::Keypair::from_protobuf_encoding(keypair) {
        Ok(pair) => pair.sign(message).ok(),
        Err(_) => None,
    }
}

/// Calls `Keypair::generate_ed25519`, and gives the new pair and its public key in their
/// protobuf encodings (`Keypair::to_protobuf_encoding`, `PublicKey::encode_protobuf`).
/// The pair is drawn at random. The contract claims what holds of every pair: an Ed25519
/// pair is always encoded, its encoding decodes to the same pair, and so the second part is
/// the public key that the first part decodes to.
#[verifier::external_body]
pub(crate) fn generate_ed25519() -> (material: (Vec<u8>, Vec<u8>))
    ensures
        keypair_public(material.0@) == Some(material.1@),
{
    let pair = libp2p_identity::Keypair::generate_ed25519();
    let public = pair.public().encode_protobuf();
    (pair.to_protobuf_encoding().unwrap_or_default(), public)
}

/// A public key, in its protobuf encoding.
#[derive(Clone, Debug, PartialEq, Eq)]
pub struct PublicKey {
    encoded: Vec<u8>,
}

impl View for PublicKey {
    type V = Seq<u8>;

    closed spec fn view(&self) -> Seq<u8> {
        self.encoded@
    }
}

impl PublicKey {
    /// Decodes a public key. The key is kept in the encoding that the decoded key is
    /// written in, which may differ from `bytes`.
    pub fn from_protobuf_encoding(bytes: &[u8]) -> (r: Result<PublicKey, InvalidKey>)
        ensures
            match decoded_public_key(bytes@) {
                Some(key) => r matches Ok(k) && k@ == key,
                None => r is Err,
            },
    {
        match decode_public_key(bytes) {
            Some(encoded) => Ok(PublicKey { encoded }),
            None => Err(InvalidKey),
        }
    }

    /// The key with the encoding `encoded`, which is taken as it is.
    pub(crate) fn of_encoding(encoded: Vec<u8>) -> (key: PublicKey)
        ensures
            key@ == encoded@,
    {
        PublicKey { encoded }
    }

    /// The key's protobuf encoding.
    pub fn to_protobuf_encoding(&self) -> (bytes: Vec<u8>)
        ensures
            bytes@ == self@,
    {
        slice_to_vec(self.encoded.as_slice())
    }

    /// The key's protobuf encoding, borrowed.
    pub fn as_bytes(&self) -> (bytes: &[u8])
        ensures
            bytes@ == self@,
    {
        self.encoded.as_slice()
    }

    /// Whether `signature` is one of `message` under this key.
    pub fn verify(&self, message: &[u8], signature: &[u8]) -> (valid: bool)
        ensures
            valid == signature_verifies(self@, message@, signature@),
    {
        verify_signature(self.encoded.as_slice(), message, signature)
    }

    /// A copy of this key.
    pub fn duplicate(&self) -> (key: PublicKey)
        ensures
            key@ == self@,
    {
        PublicKey { encoded: slice_to_vec(self.encoded.as_slice()) }
    }
}

/// A keypair, in its protobuf encoding.
#[derive(Clone, Debug)]
pub struct Keypair {
    encoded: Vec<u8>,
}

impl View for Keypair {
    type V = Seq<u8>;

    closed spec fn view(&self) -> Seq<u8> {
        self.encoded@
    }
}

impl Keypair {
    /// Decodes a keypair: the bytes are kept as they are where they decode.
    pub fn from_protobuf_encoding(bytes: &[u8]) -> (r: Result<Keypair, InvalidKey>)
        ensures
            match keypair_public(bytes@) {
                Some(_) => r matches Ok(pair) && pair@ == bytes@,
                None => r is Err,
            },
    {
        match public_key_of_keypair(bytes) {
            Some(_) => Ok(Keypair { encoded: slice_to_vec(bytes) }),
            None => Err(InvalidKey),
        }
    }

    /// The pair's protobuf encoding.
    pub fn to_protobuf_encoding(&self) -> (bytes: Vec<u8>)
        ensures
            bytes@ == self@,
    {
        slice_to_vec(self.encoded.as_slice())
    }

    /// The public key of this pair, where the pair decodes.
    pub fn public(&self) -> (r: Option<PublicKey>)
        ensures
            match keypair_public(self@) {
                Some(key) => r matches Some(k) && k@ == key,
                None => r is None,
            },
    {
        match public_key_of_keypair(self.encoded.as_slice()) {
            Some(encoded) => Some(PublicKey { encoded }),
            None => None,
        }
    }

    /// Signs `message`. A signature that comes out is one of `message` under the public key
    /// of this pair. A pair that does not decode gives none; whether one that decodes does
    /// is the signer's affair.
    pub fn sign(&self, message: &[u8]) -> (signature: Option<Vec<u8>>)
        ensures
            match signature {
                Some(s) => keypair_public(self@) matches Some(key) && signature_verifies(
                    key,
                    message@,
                    s@,
                ),
                None => true,
            },
    {
        sign_with_keypair(self.encoded.as_slice(), message)
    }
}

/// A fresh Ed25519 keypair with its public key: the key that the pair decodes to.
pub fn generate_keypair() -> (material: (Keypair, PublicKey))
    ensures
        keypair_public(material.0@) == Some(material.1@),
{
    let (pair, public) = generate_ed25519();
    (Keypair { encoded: pair }, PublicKey { encoded: public })
}

} // verus!
