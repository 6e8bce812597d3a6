//! What a client of the naming service computes before it sends a request and after it gets
//! an answer. Sending and receiving are not done here.
//!
//! A record travels as base64 text of the entry's encoding. Base64 is the work of the
//! `base64` crate; this module names what it computes.

use crate::error::IpnsError;
use crate::ipns::{
    deserialize_ipns_entry, projection, revision_from_ipns_entry, revision_payload,
    revision_to_ipns_entry, serialize_ipns_entry, v2_only_entry, validate_ipns_entry, validation,
};
use crate::entry::{entry_wire, parse_entry};
use crate::keys::Keypair;
use crate::name::{name_text, Name, NameView, WritableName, IDENTITY};
use crate::revision::{Revision, RevisionView};
use crate::time::rfc3339_text;
use vstd::prelude::*;

verus! {

/// The standard base64 text of `bytes`, with padding: what `base64::encode` writes.
pub uninterp spec fn base64_text(bytes: Seq<u8>) -> Seq<char>;

/// The bytes that standard base64 `text` stands for: what `base64::decode` reads, and `None`
/// where it reads nothing.
pub uninterp spec fn base64_decoded(text: Seq<char>) -> Option<Seq<u8>>;

/// Calls `base64::encode`. The contract only names the result.
#[verifier::external_body]
pub(crate) fn encode_base64(bytes: &[u8]) -> (text: String)
    ensures
        text@ == base64_text(bytes@),
{
    base64::encode(bytes)
}

/// Calls `base64::decode`. The contract only names the result.
#[verifier::external_body]
pub(crate) fn decode_base64(text: &str) -> (bytes: Option<Vec<u8>>)
    ensures
        match base64_decoded(text@) {
            Some(b) => bytes matches Some(v) && v@ == b,
            None => bytes is None,
        },
{
    base64::decode(text).ok()
}

/// The address of the naming service that a client talks to unless told otherwise.
pub fn default_endpoint() -> (url: &'static str)
    ensures
        url@ == "https://name.web3.storage/"@,
{
    "https://name.web3.storage/"
}

/// An answer of the service that is no success: its status and what the service said.
#[derive(Clone, Debug, PartialEq, Eq)]
pub struct APIError {
    pub status_code: u16,
    pub message: String,
}

/// Why a request to the service came to nothing.
#[derive(Clone, Debug, PartialEq, Eq)]
pub enum ClientError {
    /// The service answered with a status outside 200 to 299.
    Api(APIError),
    /// The service was not reached, or its answer could not be read.
    Transport,
    /// The record could not be made, or the record in the answer is not a valid one.
    Ipns(IpnsError),
}

/// What is sent to publish a revision: the name in its printable form, and the record.
#[derive(Clone, Debug, PartialEq, Eq)]
pub struct PublishRequest {
    pub name: String,
    pub record: String,
}

/// Whether a status is one of success.
pub open spec fn is_success(status_code: u16) -> bool {
    200 <= status_code <= 299
}

/// Judges the status of an answer: nothing to report for a success, else the status with the
/// message of the service.
pub fn check_status(status_code: u16, message: String) -> (r: Result<(), ClientError>)
    ensures
        match r {
            Ok(_) => is_success(status_code),
            Err(ClientError::Api(e)) => !is_success(status_code) && e.status_code == status_code
                && e.message == message,
            Err(_) => false,
        },
{
    if status_code >= 200 && status_code <= 299 {
        Ok(())
    } else {
        Err(ClientError::Api(APIError { status_code, message }))
    }
}

/// The record for a revision, signed by `signer`: the entry's encoding in base64.
pub fn encode_record(revision: &Revision, signer: &Keypair) -> (r: Result<String, IpnsError>)
    ensures
        match rfc3339_text(revision@.validity.0, revision@.validity.1) {
            None => r matches Err(err) && err == IpnsError::InvalidValidity,
            Some(text) => match r {
                Ok(record) => exists|signature: Seq<u8>|
                    record@ == base64_text(
                        entry_wire(v2_only_entry(revision_payload(revision@, text), signature)),
                    ),
                Err(err) => err == IpnsError::Signing,
            },
        },
{
    let entry = match revision_to_ipns_entry(revision, signer) {
        Ok(entry) => entry,
        Err(err) => {
            return Err(err);
        },
    };
    match serialize_ipns_entry(&entry) {
        Ok(bytes) => Ok(encode_base64(bytes.as_slice())),
        Err(err) => Err(err),
    }
}

/// What is sent to publish a revision under a writable name.
pub fn publish_request(writable: &WritableName, revision: &Revision) -> (r: Result<
    PublishRequest,
    ClientError,
>)
    ensures
        match rfc3339_text(revision@.validity.0, revision@.validity.1) {
            None => r matches Err(ClientError::Ipns(err)) && err == IpnsError::InvalidValidity,
            Some(text) => match r {
                Ok(request) => request.name@ == name_text(writable.name_view()) && exists|
                    signature: Seq<u8>,
                |
                    request.record@ == base64_text(
                        entry_wire(v2_only_entry(revision_payload(revision@, text), signature)),
                    ),
                Err(ClientError::Ipns(err)) => err == IpnsError::Signing,
                Err(_) => false,
            },
        },
{
    match encode_record(revision, writable.keypair()) {
        Ok(record) => Ok(PublishRequest { name: writable.to_string(), record }),
        Err(err) => Err(ClientError::Ipns(err)),
    }
}

/// The revision of `name` that the bytes of a record hold, where the record is valid under
/// the key that the name holds.
pub open spec fn revision_of_record(bytes: Seq<u8>, name: NameView) -> Result<
    RevisionView,
    IpnsError,
> {
    match parse_entry(bytes) {
        None => Err(IpnsError::Decode),
        Some(e) => if name.code != IDENTITY {
            Err(IpnsError::KeyNotEmbedded)
        } else {
            match validation(e, name.digest) {
                Err(err) => Err(err),
                Ok(_) => projection(e, name),
            }
        },
    }
}

/// Reads the revision of `name` out of the bytes of a record, after checking the record
/// against the key that the name holds. A name that holds no key has no valid record.
pub fn revision_from_record_bytes(bytes: &[u8], name: &Name) -> (r: Result<Revision, IpnsError>)
    ensures
        match revision_of_record(bytes@, name@) {
            Ok(v) => r matches Ok(revision) && revision@ == v,
            Err(e) => r matches Err(err) && err == e,
        },
{
    let entry = match deserialize_ipns_entry(bytes) {
        Ok(entry) => entry,
        Err(err) => {
            return Err(err);
        },
    };
    let key = match name.public_key() {
        Ok(key) => key,
        Err(_) => {
            return Err(IpnsError::KeyNotEmbedded);
        },
    };
    match validate_ipns_entry(&entry, &key) {
        Ok(_) => {},
        Err(err) => {
            return Err(err);
        },
    }
    revision_from_ipns_entry(&entry, name)
}

/// Reads the revision of `name` out of a record as the service hands it out, in base64.
pub fn revision_from_record(record: &str, name: &Name) -> (r: Result<Revision, ClientError>)
    ensures
        match base64_decoded(record@) {
            None => r matches Err(ClientError::Transport),
            Some(bytes) => match revision_of_record(bytes, name@) {
                Ok(v) => r matches Ok(revision) && revision@ == v,
                Err(e) => r matches Err(ClientError::Ipns(err)) && err == e,
            },
        },
{
    let bytes = match decode_base64(record) {
        Some(bytes) => bytes,
        None => {
            return Err(ClientError::Transport);
        },
    };
    match revision_from_record_bytes(bytes.as_slice(), name) {
        Ok(revision) => Ok(revision),
        Err(err) => Err(ClientError::Ipns(err)),
    }
}

} // verus!
