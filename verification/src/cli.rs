//! What the command line decides: which revision to publish after a look at the service,
//! what to print for a name that was looked up, and what a record given as text holds.
//! Talking to the service, reading files and printing are not done here.

use crate::client::{
    base64_decoded, decode_base64, revision_from_record_bytes, revision_of_record, ClientError,
};
use crate::entry::{parse_entry, EntryFields};
use crate::error::IpnsError;
use crate::ipns::{
    deserialize_ipns_entry, projection, revision_from_ipns_entry, validate_ipns_entry, validation,
};
use crate::keys::decoded_public_key;
use crate::name::{name_of_key, name_of_text, Name};
use crate::revision::{first_revision, next_revision, Revision, RevisionView};
use crate::time::{Instant, Timestamp};
use vstd::prelude::*;
use vstd::string::StringExecFns;

verus! {

/// Which command failed.
#[derive(Clone, Copy, Debug, PartialEq, Eq, Structural)]
pub enum CliError {
    Resolve,
    Publish,
    Create,
    Parse,
    Other,
}

impl CliError {
    /// What to say of the failure.
    pub fn message(&self) -> (text: &'static str)
        ensures
            text@ == match *self {
                CliError::Resolve => "failed to resolve name"@,
                CliError::Publish => "failed to publish value"@,
                CliError::Create => "failed to create new keypair"@,
                CliError::Parse => "failed to parse record"@,
                CliError::Other => "operation failed"@,
            },
    {
        match self {
            CliError::Resolve => "failed to resolve name",
            CliError::Publish => "failed to publish value",
            CliError::Create => "failed to create new keypair",
            CliError::Parse => "failed to parse record",
            CliError::Other => "operation failed",
        }
    }
}

/// The status with which the service says that it has no record of a name.
pub const NOT_FOUND: u16 = 404;

/// The status with which the service says that it failed.
pub const SERVER_ERROR: u16 = 500;

/// Whether a failure is an answer of the service with status `status`.
pub open spec fn has_status(error: ClientError, status: u16) -> bool {
    match error {
        ClientError::Api(e) => e.status_code == status,
        _ => false,
    }
}

/// Whether a failure says that the service has no record of the name.
pub fn is_404(error: &ClientError) -> (r: bool)
    ensures
        r == has_status(*error, NOT_FOUND),
{
    match error {
        ClientError::Api(e) => e.status_code == NOT_FOUND,
        _ => false,
    }
}

/// Whether a failure says that the service itself failed.
pub fn is_500(error: &ClientError) -> (r: bool)
    ensures
        r == has_status(*error, SERVER_ERROR),
{
    match error {
        ClientError::Api(e) => e.status_code == SERVER_ERROR,
        _ => false,
    }
}

/// What the command `resolve` does with the answer of the service.
#[derive(Clone, Debug, PartialEq, Eq)]
pub enum ResolveReport {
    /// The name has a value: print it, and end well.
    Value(String),
    /// The service has no record of the name: say so on the error stream, and end well.
    NoRecord(String),
    /// The look-up failed: end in failure.
    Failed(CliError),
}

/// The line that tells that a name has no record.
pub open spec fn no_record_line(name: Seq<char>) -> Seq<char> {
    "no record found for key "@ + name
}

/// Decides what `resolve` reports for the name written `name_text`, given the answer of the
/// service.
pub fn resolve_report(name_text: &str, answer: &Result<Revision, ClientError>) -> (report:
    ResolveReport)
    ensures
        match *answer {
            Ok(revision) => report matches ResolveReport::Value(v) && v@ == revision@.value,
            Err(error) => if has_status(error, NOT_FOUND) {
                report matches ResolveReport::NoRecord(line) && line@ == no_record_line(
                    name_text@,
                )
            } else {
                report matches ResolveReport::Failed(e) && e == CliError::Resolve
            },
        },
{
    match answer {
        Ok(revision) => ResolveReport::Value(String::from_str(revision.value())),
        Err(error) => {
            if is_404(error) {
                ResolveReport::NoRecord(
                    String::from_str("no record found for key ").concat(name_text),
                )
            } else {
                ResolveReport::Failed(CliError::Resolve)
            }
        },
    }
}

/// What the command `publish` does next.
#[derive(Clone, Debug, PartialEq, Eq)]
pub enum PublishStep {
    /// Ask the gateway for the record of the name.
    AskGateway,
    /// Publish this revision.
    Publish(Revision),
    /// Give up: the history of the name has no room for another revision.
    Fail(CliError),
}

/// The revision to publish after a revision that was found, if there is room for one.
pub open spec fn successor(found: RevisionView, value: Seq<char>, now: Instant) -> Option<
    RevisionView,
> {
    if found.sequence < u64::MAX {
        Some(next_revision(found, value, now))
    } else {
        None
    }
}

/// The step that follows a revision that was found: publishing its successor, or giving up.
fn publish_after(found: &Revision, value: &str, now: Timestamp) -> (step: PublishStep)
    ensures
        match successor(found@, value@, now@) {
            Some(next) => step matches PublishStep::Publish(r) && r@ == next,
            None => step matches PublishStep::Fail(e) && e == CliError::Publish,
        },
{
    if found.sequence() < u64::MAX {
        PublishStep::Publish(found.increment_at(value, now))
    } else {
        PublishStep::Fail(CliError::Publish)
    }
}

/// Decides what `publish` does once the service has been asked for the record of `name`,
/// at the time `now`. A record that was found is followed by its successor. Where the service
/// has none, the first revision is published. After any other failure the gateway is asked.
pub fn after_resolve(
    name: &Name,
    value: &str,
    answer: &Result<Revision, ClientError>,
    now: Timestamp,
) -> (step: PublishStep)
    ensures
        match *answer {
            Ok(found) => match successor(found@, value@, now@) {
                Some(next) => step matches PublishStep::Publish(r) && r@ == next,
                None => step matches PublishStep::Fail(e) && e == CliError::Publish,
            },
            Err(error) => if has_status(error, NOT_FOUND) {
                step matches PublishStep::Publish(r) && r@ == first_revision(
                    name@,
                    value@,
                    now@,
                )
            } else {
                step is AskGateway
            },
        },
{
    match answer {
        Ok(found) => publish_after(found, value, now),
        Err(error) => {
            if is_404(error) {
                PublishStep::Publish(Revision::v0_at(name, value, now))
            } else {
                PublishStep::AskGateway
            }
        },
    }
}

/// Decides what `publish` does once the gateway has been asked for the record of `name`, at
/// the time `now`. A record that was found is followed by its successor; without one the
/// first revision is published.
pub fn after_gateway(name: &Name, value: &str, answer: &Option<Revision>, now: Timestamp) -> (step:
    PublishStep)
    ensures
        match *answer {
            Some(found) => match successor(found@, value@, now@) {
                Some(next) => step matches PublishStep::Publish(r) && r@ == next,
                None => step matches PublishStep::Fail(e) && e == CliError::Publish,
            },
            None => step matches PublishStep::Publish(r) && r@ == first_revision(
                name@,
                value@,
                now@,
            ),
        },
{
    match answer {
        Some(found) => publish_after(found, value, now),
        None => PublishStep::Publish(Revision::v0_at(name, value, now)),
    }
}

/// The address at which the gateway hands out the record of the name written `name_text`.
pub fn gateway_url(name_text: &str) -> (url: String)
    ensures
        url@ == "https://trustless-gateway.link/ipns/"@ + name_text@,
{
    String::from_str("https://trustless-gateway.link/ipns/").concat(name_text)
}

/// The kind of content that the gateway is asked for.
pub fn gateway_accept() -> (kind: &'static str)
    ensures
        kind@ == "application/vnd.ipfs.ipns-record"@,
{
    "application/vnd.ipfs.ipns-record"
}

/// The revision that the gateway's answer holds for the name written `name_text`.
pub open spec fn gateway_revision(record: Seq<u8>, name_text: Seq<char>) -> Result<
    RevisionView,
    IpnsError,
> {
    match parse_entry(record) {
        None => Err(IpnsError::Decode),
        Some(_) => match name_of_text(name_text) {
            None => Err(IpnsError::InvalidName),
            Some(name) => revision_of_record(record, name),
        },
    }
}

/// Reads the revision out of the record that the gateway handed out for the name written
/// `name_text`: the record must decode, the name must be one, and the record must be valid
/// under the key that the name holds.
pub fn revision_from_gateway(record: &[u8], name_text: &str) -> (r: Result<Revision, IpnsError>)
    ensures
        match gateway_revision(record@, name_text@) {
            Ok(v) => r matches Ok(revision) && revision@ == v,
            Err(e) => r matches Err(err) && err == e,
        },
{
    match deserialize_ipns_entry(record) {
        Ok(_) => {},
        Err(err) => {
            return Err(err);
        },
    }
    let name = match Name::parse(name_text) {
        Ok(name) => name,
        Err(_) => {
            return Err(IpnsError::InvalidName);
        },
    };
    revision_from_record_bytes(record, &name)
}

/// The revision that an entry holds for the name of the key it carries, where the entry is
/// valid under that key.
pub open spec fn carried_revision(e: EntryFields) -> Result<RevisionView, IpnsError> {
    match decoded_public_key(e.pub_key) {
        None => Err(IpnsError::InvalidName),
        Some(key) => match validation(e, key) {
            Err(err) => Err(err),
            Ok(_) => projection(e, name_of_key(key)),
        },
    }
}

/// The revision that a record given as base64 text holds.
pub open spec fn parsed_record(record: Seq<char>) -> Result<RevisionView, IpnsError> {
    match base64_decoded(record) {
        None => Err(IpnsError::Decode),
        Some(bytes) => match parse_entry(bytes) {
            None => Err(IpnsError::Decode),
            Some(e) => carried_revision(e),
        },
    }
}

/// Reads the revision out of a record given as base64 text, for the command `parse`. The
/// record must carry its public key and be valid under it.
pub fn parse_record(record_encoded: &str) -> (r: Result<Revision, IpnsError>)
    ensures
        match parsed_record(record_encoded@) {
            Ok(v) => r matches Ok(revision) && revision@ == v,
            Err(e) => r matches Err(err) && err == e,
        },
{
    let entry_bytes = match decode_base64(record_encoded) {
        Some(bytes) => bytes,
        None => {
            return Err(IpnsError::Decode);
        },
    };
    let entry = match deserialize_ipns_entry(entry_bytes.as_slice()) {
        Ok(entry) => entry,
        Err(err) => {
            return Err(err);
        },
    };
    let name = match Name::from_bytes(entry.pub_key.as_slice()) {
        Ok(name) => name,
        Err(_) => {
            return Err(IpnsError::InvalidName);
        },
    };
    let key = match name.public_key() {
        Ok(key) => key,
        Err(_) => {
            return Err(IpnsError::KeyNotEmbedded);
        },
    };
    match validate_ipns_entry(&entry, &key) {
        Ok(_) => {},
        Err(err) => {
            return Err(err);
        },
    }
    revision_from_ipns_entry(&entry, &name)
}

/// The name of the file that a new keypair is written to where none is given.
pub fn default_key_file(name_text: &str) -> (file: String)
    ensures
        file@ == name_text@ + ".key"@,
{
    String::from_str(name_text).concat(".key")
}

} // verus!
