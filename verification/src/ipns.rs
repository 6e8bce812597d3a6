//! Records: making an entry from a revision, checking an entry against a public key, and
//! reading a revision out of an entry.
//!
//! A record carries up to two signatures. The second generation signs the bytes of the
//! payload, as they stand in the entry, behind the prefix `ipns-signature:`. The first signs
//! the value, the letters `EOL` and the validity. An entry with a second-generation signature
//! and a payload is judged by these two alone; its other fields must then either all be empty
//! or agree with the payload.

use crate::bytes::{append_bytes, bytes_equal, text_of_utf8};
use crate::entry::{
    decode_entry, empty_fields, encode_entry, entry_wire, parse_entry, EntryFields, IpnsEntry,
};
use crate::error::{
    CborError, InvalidIpnsV1Signature, InvalidIpnsV2Signature, InvalidIpnsV2SignatureData,
    IpnsError, SigningError,
};
use crate::keys::{keypair_public, signature_verifies, Keypair, PublicKey};
use crate::name::{Name, NameView};
use crate::payload::{
    decode_payload, encode_payload, parse_payload, signed_payload, PayloadFields,
};
use crate::revision::{Revision, RevisionView};
use crate::time::{rfc3339_instant, rfc3339_text, Timestamp};
use vstd::prelude::*;
use vstd::slice::slice_to_vec;
use vstd::utf8::{decode_utf8, encode_utf8, valid_utf8};

verus! {

/// The letters `EOL`, which name the only kind of validity there is: a time at which the
/// record ends.
pub open spec fn eol_marker() -> Seq<u8> {
    seq![0x45u8, 0x4fu8, 0x4cu8]
}

/// The letters `ipns-signature:`.
pub open spec fn signature_prefix() -> Seq<u8> {
    seq![
        0x69u8,
        0x70u8,
        0x6eu8,
        0x73u8,
        0x2du8,
        0x73u8,
        0x69u8,
        0x67u8,
        0x6eu8,
        0x61u8,
        0x74u8,
        0x75u8,
        0x72u8,
        0x65u8,
        0x3au8,
    ]
}

/// What a first-generation signature covers: the value, `EOL`, the validity.
pub open spec fn v1_message(value: Seq<u8>, validity: Seq<u8>) -> Seq<u8> {
    value + eol_marker() + validity
}

/// What a second-generation signature covers: the prefix, then the payload's bytes.
pub open spec fn v2_message(data: Seq<u8>) -> Seq<u8> {
    signature_prefix() + data
}

/// Whether an entry is judged by its second-generation signature: it has one, and a payload.
pub open spec fn is_v2(e: EntryFields) -> bool {
    e.signature_v2.len() > 0 && e.data.len() > 0
}

/// Whether an entry carries its values in the payload alone: no value, no validity, no
/// sequence number and no lifetime beside it.
pub open spec fn is_v2_only(e: EntryFields) -> bool {
    e.value.len() == 0 && e.validity.len() == 0 && e.ttl == 0 && e.sequence == 0
}

/// Whether the fields of an entry agree with a payload, all five of them.
pub open spec fn fields_match(e: EntryFields, p: PayloadFields) -> bool {
    &&& e.value == p.value
    &&& e.validity == p.validity
    &&& e.sequence == p.sequence
    &&& e.ttl == p.ttl
    &&& e.validity_type == p.validity_type
}

/// Whether the payload of an entry can be read and the fields beside it are either all empty
/// or agree with it.
pub open spec fn v2_data_consistent(e: EntryFields) -> bool {
    e.data.len() > 0 && match parse_payload(e.data) {
        Some(p) => is_v2_only(e) || fields_match(e, p),
        None => false,
    }
}

/// The verdict on an entry under the public key with encoding `key`.
pub open spec fn validation(e: EntryFields, key: Seq<u8>) -> Result<(), IpnsError> {
    if is_v2(e) {
        if !signature_verifies(key, v2_message(e.data), e.signature_v2) {
            Err(IpnsError::InvalidV2Signature)
        } else if !v2_data_consistent(e) {
            Err(IpnsError::InvalidV2SignatureData)
        } else {
            Ok(())
        }
    } else if signature_verifies(key, v1_message(e.value, e.validity), e.signature) {
        Ok(())
    } else {
        Err(IpnsError::InvalidV1Signature)
    }
}

/// The entry that carries a payload and its signature and nothing else.
pub open spec fn v2_only_entry(data: Seq<u8>, signature: Seq<u8>) -> EntryFields {
    EntryFields { signature_v2: signature, data, ..empty_fields() }
}

/// The payload that is signed for a revision whose validity is written as `validity`.
pub open spec fn revision_payload(r: RevisionView, validity: Seq<char>) -> Seq<u8> {
    signed_payload(encode_utf8(r.value), encode_utf8(validity), r.sequence, r.ttl)
}

/// The text that bytes stand for, where they are UTF-8.
pub open spec fn text_of(bytes: Seq<u8>) -> Option<Seq<char>> {
    if valid_utf8(bytes) {
        Some(decode_utf8(bytes))
    } else {
        None
    }
}

/// The revision of `name` that a value, a validity, a sequence number and a lifetime make:
/// value and validity must be text, the validity an RFC 3339 time, and the lifetime fit in a
/// signed 64-bit count.
pub open spec fn revision_of_fields(
    name: NameView,
    value: Seq<u8>,
    validity: Seq<u8>,
    sequence: nat,
    ttl: nat,
) -> Result<RevisionView, IpnsError> {
    match text_of(value) {
        None => Err(IpnsError::InvalidText),
        Some(text) => match text_of(validity) {
            None => Err(IpnsError::InvalidText),
            Some(time) => match rfc3339_instant(time) {
                None => Err(IpnsError::InvalidValidity),
                Some(instant) => if ttl > i64::MAX {
                    Err(IpnsError::TtlOutOfRange)
                } else {
                    Ok(RevisionView { name, value: text, validity: instant, sequence, ttl })
                },
            },
        },
    }
}

/// The revision of `name` that an entry holds: that of its payload where it has one, else
/// that of its own fields.
pub open spec fn projection(e: EntryFields, name: NameView) -> Result<RevisionView, IpnsError> {
    if e.data.len() > 0 {
        match parse_payload(e.data) {
            None => Err(IpnsError::Cbor),
            Some(p) => revision_of_fields(name, p.value, p.validity, p.sequence, p.ttl),
        }
    } else {
        revision_of_fields(name, e.value, e.validity, e.sequence, e.ttl)
    }
}

/// The entry for a payload and what the signer made of it: the payload with its signature,
/// or the signer's failure.
pub fn entry_from_signature(data: Vec<u8>, signature: Option<Vec<u8>>) -> (r: Result<
    IpnsEntry,
    IpnsError,
>)
    ensures
        match signature {
            Some(s) => r matches Ok(e) && e@ == v2_only_entry(data@, s@),
            None => r matches Err(err) && err == IpnsError::Signing,
        },
{
    match signature {
        Some(signature_v2) => {
            let mut entry = IpnsEntry::default();
            entry.signature_v2 = signature_v2;
            entry.data = data;
            Ok(entry)
        },
        None => Err(IpnsError::Signing),
    }
}

/// Makes the entry for a revision, signed by `signer`. The entry carries the payload and its
/// signature and nothing else, and the signature is one of the payload behind its prefix
/// under the signer's public key. It fails where the validity cannot be written as text, and
/// where the signer fails.
pub fn revision_to_ipns_entry(revision: &Revision, signer: &Keypair) -> (r: Result<
    IpnsEntry,
    IpnsError,
>)
    ensures
        match rfc3339_text(revision@.validity.0, revision@.validity.1) {
            None => r matches Err(err) && err == IpnsError::InvalidValidity,
            Some(text) => match r {
                Ok(e) => {
                    &&& e@ == v2_only_entry(revision_payload(revision@, text), e@.signature_v2)
                    &&& keypair_public(signer@) matches Some(key) && signature_verifies(
                        key,
                        v2_message(e@.data),
                        e@.signature_v2,
                    )
                },
                Err(err) => err == IpnsError::Signing,
            },
        },
{
    let validity = match revision.validity_string() {
        Some(text) => text,
        None => {
            return Err(IpnsError::InvalidValidity);
        },
    };
    let data = match v2_signature_data(
        revision.value(),
        validity.as_str(),
        revision.sequence(),
        revision.ttl(),
    ) {
        Ok(data) => data,
        Err(_) => {
            return Err(IpnsError::Cbor);
        },
    };
    let signature = match create_v2_signature(signer, data.as_slice()) {
        Ok(signature) => Some(signature),
        Err(_) => None,
    };
    entry_from_signature(data, signature)
}

/// The encoding of an entry. It reads back as the entry.
pub fn serialize_ipns_entry(entry: &IpnsEntry) -> (r: Result<Vec<u8>, IpnsError>)
    ensures
        r matches Ok(bytes) && bytes@ == entry_wire(entry@) && parse_entry(bytes@) == Some(
            entry@,
        ),
{
    Ok(encode_entry(entry))
}

/// The entry that bytes encode.
pub fn deserialize_ipns_entry(entry_bytes: &[u8]) -> (r: Result<IpnsEntry, IpnsError>)
    ensures
        match parse_entry(entry_bytes@) {
            Some(e) => r matches Ok(entry) && entry@ == e,
            None => r matches Err(err) && err == IpnsError::Decode,
        },
{
    match decode_entry(entry_bytes) {
        Some(entry) => Ok(entry),
        None => Err(IpnsError::Decode),
    }
}

/// Checks an entry against a public key.
pub fn validate_ipns_entry(entry: &IpnsEntry, public_key: &PublicKey) -> (r: Result<
    (),
    IpnsError,
>)
    ensures
        r == validation(entry@, public_key@),
{
    if entry.signature_v2.len() > 0 && entry.data.len() > 0 {
        match validate_v2_signature(
            public_key,
            entry.signature_v2.as_slice(),
            entry.data.as_slice(),
        ) {
            Ok(_) => {},
            Err(_) => {
                return Err(IpnsError::InvalidV2Signature);
            },
        }
        match validate_v2_data_matches_entry_data(entry) {
            Ok(_) => Ok(()),
            Err(_) => Err(IpnsError::InvalidV2SignatureData),
        }
    } else {
        match validate_v1_signature(entry, public_key) {
            Ok(_) => Ok(()),
            Err(_) => Err(IpnsError::InvalidV1Signature),
        }
    }
}

/// The revision that a value, a validity, a sequence number and a lifetime make.
fn revision_from_fields(name: &Name, value: &[u8], validity: &[u8], sequence: u64, ttl: u64) -> (r:
    Result<Revision, IpnsError>)
    ensures
        match revision_of_fields(name@, value@, validity@, sequence as nat, ttl as nat) {
            Ok(v) => r matches Ok(revision) && revision@ == v,
            Err(e) => r matches Err(err) && err == e,
        },
{
    let text = match text_of_utf8(value) {
        Some(text) => text,
        None => {
            return Err(IpnsError::InvalidText);
        },
    };
    let time = match text_of_utf8(validity) {
        Some(time) => time,
        None => {
            return Err(IpnsError::InvalidText);
        },
    };
    let instant = match Timestamp::parse_rfc3339(time.as_str()) {
        Some(instant) => instant,
        None => {
            return Err(IpnsError::InvalidValidity);
        },
    };
    if ttl > 0x7fff_ffff_ffff_ffff {
        return Err(IpnsError::TtlOutOfRange);
    }
    Ok(Revision::new(name, text.as_str(), instant, ttl, sequence))
}

/// Reads the revision of `name` out of an entry: from its payload where it has one, else
/// from its own fields.
pub fn revision_from_ipns_entry(entry: &IpnsEntry, name: &Name) -> (r: Result<Revision, IpnsError>)
    ensures
        match projection(entry@, name@) {
            Ok(v) => r matches Ok(revision) && revision@ == v,
            Err(e) => r matches Err(err) && err == e,
        },
{
    if entry.data.len() > 0 {
        match decode_payload(entry.data.as_slice()) {
            Some(data) => revision_from_fields(
                name,
                data.value.as_slice(),
                data.validity.as_slice(),
                data.sequence,
                data.ttl,
            ),
            None => Err(IpnsError::Cbor),
        }
    } else {
        revision_from_fields(
            name,
            entry.value.as_slice(),
            entry.validity.as_slice(),
            entry.sequence,
            entry.ttl,
        )
    }
}

/// What a first-generation signature covers.
pub fn v1_signature_data(value_bytes: &[u8], validity_bytes: &[u8]) -> (buf: Vec<u8>)
    ensures
        buf@ == v1_message(value_bytes@, validity_bytes@),
{
    let mut buf = slice_to_vec(value_bytes);
    buf.push(0x45);
    buf.push(0x4f);
    buf.push(0x4c);
    append_bytes(&mut buf, validity_bytes);
    assert(buf@ =~= v1_message(value_bytes@, validity_bytes@));
    buf
}

/// The payload that is signed for a value, a validity, a sequence number and a lifetime. It
/// reads back as these four, with validity type 0.
pub fn v2_signature_data(value: &str, validity: &str, sequence: u64, ttl: u64) -> (r: Result<
    Vec<u8>,
    CborError,
>)
    ensures
        r matches Ok(data) && data@ == signed_payload(
            encode_utf8(value@),
            encode_utf8(validity@),
            sequence as nat,
            ttl as nat,
        ) && parse_payload(data@) == Some(
            PayloadFields {
                value: encode_utf8(value@),
                validity: encode_utf8(validity@),
                validity_type: 0,
                sequence: sequence as nat,
                ttl: ttl as nat,
            },
        ),
{
    Ok(encode_payload(value.as_bytes(), validity.as_bytes(), sequence, ttl))
}

/// What a second-generation signature covers.
pub fn v2_signed_message(data: &[u8]) -> (msg: Vec<u8>)
    ensures
        msg@ == v2_message(data@),
{
    let mut msg: Vec<u8> = vec![
        0x69u8,
        0x70u8,
        0x6eu8,
        0x73u8,
        0x2du8,
        0x73u8,
        0x69u8,
        0x67u8,
        0x6eu8,
        0x61u8,
        0x74u8,
        0x75u8,
        0x72u8,
        0x65u8,
        0x3au8,
    ];
    assert(msg@ =~= signature_prefix());
    append_bytes(&mut msg, data);
    msg
}

/// Checks a second-generation signature of a payload.
pub fn validate_v2_signature(public_key: &PublicKey, sig: &[u8], data: &[u8]) -> (r: Result<
    (),
    InvalidIpnsV2Signature,
>)
    ensures
        r is Ok <==> signature_verifies(public_key@, v2_message(data@), sig@),
{
    let msg = v2_signed_message(data);
    if public_key.verify(msg.as_slice(), sig) {
        Ok(())
    } else {
        Err(InvalidIpnsV2Signature)
    }
}

/// Checks that the payload of an entry can be read and that the fields beside it are either
/// all empty or agree with it.
pub fn validate_v2_data_matches_entry_data(entry: &IpnsEntry) -> (r: Result<
    (),
    InvalidIpnsV2SignatureData,
>)
    ensures
        r is Ok <==> v2_data_consistent(entry@),
{
    if entry.data.len() == 0 {
        return Err(InvalidIpnsV2SignatureData);
    }
    let data = match decode_payload(entry.data.as_slice()) {
        Some(data) => data,
        None => {
            return Err(InvalidIpnsV2SignatureData);
        },
    };
    let is_v2_only = entry.value.len() == 0 && entry.validity.len() == 0 && entry.ttl == 0
        && entry.sequence == 0;
    if is_v2_only {
        return Ok(());
    }
    if !bytes_equal(entry.value.as_slice(), data.value.as_slice()) || !bytes_equal(
        entry.validity.as_slice(),
        data.validity.as_slice(),
    ) || entry.sequence != data.sequence || entry.ttl != data.ttl || entry.validity_type < 0
        || entry.validity_type as u64 != data.validity_type {
        Err(InvalidIpnsV2SignatureData)
    } else {
        Ok(())
    }
}

/// Checks the first-generation signature of an entry.
pub fn validate_v1_signature(entry: &IpnsEntry, public_key: &PublicKey) -> (r: Result<
    (),
    InvalidIpnsV1Signature,
>)
    ensures
        r is Ok <==> signature_verifies(
            public_key@,
            v1_message(entry@.value, entry@.validity),
            entry@.signature,
        ),
{
    let data = v1_signature_data(entry.value.as_slice(), entry.validity.as_slice());
    if public_key.verify(data.as_slice(), entry.signature.as_slice()) {
        Ok(())
    } else {
        Err(InvalidIpnsV1Signature)
    }
}

/// Signs a value and a validity in the first generation's way. A signature that comes out
/// is one of the value, the letters `EOL` and the validity, under the signer's public key:
/// the signature that `validate_v1_signature` accepts. Whether one comes out is the signer's
/// affair.
pub fn create_v1_signature(signer: &Keypair, value_bytes: &[u8], validity_bytes: &[u8]) -> (r:
    Result<Vec<u8>, SigningError>)
    ensures
        match r {
            Ok(sig) => keypair_public(signer@) matches Some(key) && signature_verifies(
                key,
                v1_message(value_bytes@, validity_bytes@),
                sig@,
            ),
            Err(_) => true,
        },
{
    let msg = v1_signature_data(value_bytes, validity_bytes);
    match signer.sign(msg.as_slice()) {
        Some(sig) => Ok(sig),
        None => Err(SigningError),
    }
}

/// Signs a payload in the second generation's way. A signature that comes out is one of
/// the prefix followed by the payload, under the signer's public key: the signature that
/// `validate_v2_signature` accepts. Whether one comes out is the signer's affair.
pub fn create_v2_signature(signer: &Keypair, sig_data: &[u8]) -> (r: Result<
    Vec<u8>,
    SigningError,
>)
    ensures
        match r {
            Ok(sig) => keypair_public(signer@) matches Some(key) && signature_verifies(
                key,
                v2_message(sig_data@),
                sig@,
            ),
            Err(_) => true,
        },
{
    let msg = v2_signed_message(sig_data);
    match signer.sign(msg.as_slice()) {
        Some(sig) => Ok(sig),
        None => Err(SigningError),
    }
}

} // verus!
