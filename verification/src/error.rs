//! What can go wrong, by layer.

use vstd::prelude::*;

verus! {

/// A name's text or bytes are not a name: the framing is malformed, the hash is not one of
/// those that a name may carry, or the key inside does not decode.
#[derive(Clone, Copy, Debug, PartialEq, Eq, Structural)]
pub struct InvalidName;

/// A name carries a digest of its key, not the key itself.
#[derive(Clone, Copy, Debug, PartialEq, Eq, Structural)]
pub struct KeyNotEmbedded;

/// Key bytes do not decode.
#[derive(Clone, Copy, Debug, PartialEq, Eq, Structural)]
pub struct InvalidKey;

/// The signed payload could not be written or read.
#[derive(Clone, Copy, Debug, PartialEq, Eq, Structural)]
pub struct CborError;

/// The first-generation signature does not verify.
#[derive(Clone, Copy, Debug, PartialEq, Eq, Structural)]
pub struct InvalidIpnsV1Signature;

/// The second-generation signature does not verify.
#[derive(Clone, Copy, Debug, PartialEq, Eq, Structural)]
pub struct InvalidIpnsV2Signature;

/// The signed payload cannot be read, or disagrees with the fields beside it.
#[derive(Clone, Copy, Debug, PartialEq, Eq, Structural)]
pub struct InvalidIpnsV2SignatureData;

/// The signer did not sign.
#[derive(Clone, Copy, Debug, PartialEq, Eq, Structural)]
pub struct SigningError;

/// Any failure of building, encoding, decoding, validating or reading a record, with its
/// cause.
#[derive(Clone, Copy, Debug, PartialEq, Eq, Structural)]
pub enum IpnsError {
    /// The signed payload could not be written or read.
    Cbor,
    /// The bytes are not an encoded entry.
    Decode,
    /// The first-generation signature does not verify.
    InvalidV1Signature,
    /// The second-generation signature does not verify.
    InvalidV2Signature,
    /// The signed payload cannot be read, or disagrees with the fields beside it.
    InvalidV2SignatureData,
    /// The signer did not sign.
    Signing,
    /// A value or a validity is not UTF-8 text.
    InvalidText,
    /// A validity is not an RFC 3339 time, or the time cannot be written as one.
    InvalidValidity,
    /// A lifetime does not fit in 63 bits.
    TtlOutOfRange,
    /// A name's text or bytes are not a name.
    InvalidName,
    /// A name carries a digest of its key, not the key itself.
    KeyNotEmbedded,
    /// Key bytes do not decode.
    InvalidKey,
}

} // verus!
