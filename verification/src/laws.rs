//! What holds of records, whatever the revision, the key and the signature.

use crate::entry::{entry_wire, lemma_entry_round_trip, parse_entry, EntryFields};
use crate::error::IpnsError;
use crate::ipns::{
    fields_match, is_v2, is_v2_only, projection, revision_payload, text_of, v2_message,
    v2_only_entry, validation,
};
use crate::keys::signature_verifies;
use crate::payload::{
    lemma_signed_payload_round_trip, parse_payload, signed_payload, PayloadFields, MAP_OF_FIVE,
};
use crate::revision::{next_revision, RevisionView};
use crate::time::{rfc3339_instant, Instant};
use vstd::prelude::*;
use vstd::utf8::{encode_utf8, encode_utf8_decode_utf8, encode_utf8_valid_utf8};

verus! {

/// Whether a revision, with its validity written as `validity`, is one that an entry can
/// carry: its numbers fit in 64 bits, and its texts and the payload made of them are no
/// longer than a length of 64 bits can tell.
pub open spec fn carriable(r: RevisionView, validity: Seq<char>) -> bool {
    &&& r.sequence <= u64::MAX
    &&& r.ttl <= u64::MAX
    &&& encode_utf8(r.value).len() <= u64::MAX
    &&& encode_utf8(validity).len() <= u64::MAX
    &&& revision_payload(r, validity).len() <= u64::MAX
}

/// The payload that is signed for a revision reads back as the revision's value, the text
/// of its validity, its sequence number and its lifetime, with validity type 0.
pub proof fn lemma_revision_payload_reads_back(r: RevisionView, validity: Seq<char>)
    requires
        carriable(r, validity),
    ensures
        parse_payload(revision_payload(r, validity)) == Some(
            PayloadFields {
                value: encode_utf8(r.value),
                validity: encode_utf8(validity),
                validity_type: 0,
                sequence: r.sequence,
                ttl: r.ttl,
            },
        ),
        revision_payload(r, validity).len() > 0,
{
    lemma_signed_payload_round_trip(
        encode_utf8(r.value),
        encode_utf8(validity),
        r.sequence,
        r.ttl,
    );
    assert(revision_payload(r, validity)[0] == MAP_OF_FIVE);
}

/// Round trip. The entry that is made for a revision, whatever its signature, goes through
/// encoding and decoding unchanged, and the revision read out of it is the one it was made
/// for, with the validity that the written text stands for. Where that text does not read as
/// a time, or the lifetime exceeds a signed 64-bit count, reading fails and says so.
pub proof fn lemma_round_trip(r: RevisionView, validity: Seq<char>, signature: Seq<u8>)
    requires
        carriable(r, validity),
        signature.len() <= u64::MAX,
    ensures
        ({
            let e = v2_only_entry(revision_payload(r, validity), signature);
            &&& parse_entry(entry_wire(e)) == Some(e)
            &&& projection(e, r.name) == match rfc3339_instant(validity) {
                None => Err::<RevisionView, IpnsError>(IpnsError::InvalidValidity),
                Some(instant) => if r.ttl > i64::MAX {
                    Err(IpnsError::TtlOutOfRange)
                } else {
                    Ok(RevisionView { validity: instant, ..r })
                },
            }
        }),
{
    let data = revision_payload(r, validity);
    let e = v2_only_entry(data, signature);
    lemma_revision_payload_reads_back(r, validity);
    assert(e.in_range());
    lemma_entry_round_trip(e);
    encode_utf8_valid_utf8(r.value);
    encode_utf8_decode_utf8(r.value);
    encode_utf8_valid_utf8(validity);
    encode_utf8_decode_utf8(validity);
    assert(text_of(encode_utf8(r.value)) == Some(r.value));
    assert(text_of(encode_utf8(validity)) == Some(validity));
}

/// Round trip, where the text of the validity reads back as the validity and the lifetime
/// fits in a signed 64-bit count: the revision read out of the entry is the one it was made
/// for.
pub proof fn lemma_round_trip_exact(r: RevisionView, validity: Seq<char>, signature: Seq<u8>)
    requires
        carriable(r, validity),
        signature.len() <= u64::MAX,
        r.ttl <= i64::MAX,
        rfc3339_instant(validity) == Some(r.validity),
    ensures
        ({
            let e = v2_only_entry(revision_payload(r, validity), signature);
            &&& parse_entry(entry_wire(e)) == Some(e)
            &&& projection(e, r.name) == Ok::<RevisionView, IpnsError>(r)
        }),
{
    lemma_round_trip(r, validity, signature);
}

/// An entry made for a revision, with a signature that is not empty, is valid under a key
/// exactly when the signature is one of the payload behind its prefix under that key. Without
/// that it fails as a bad second-generation signature.
pub proof fn lemma_built_entry_validation(
    r: RevisionView,
    validity: Seq<char>,
    signature: Seq<u8>,
    key: Seq<u8>,
)
    requires
        carriable(r, validity),
        signature.len() > 0,
    ensures
        ({
            let data = revision_payload(r, validity);
            validation(v2_only_entry(data, signature), key) == if signature_verifies(
                key,
                v2_message(data),
                signature,
            ) {
                Ok::<(), IpnsError>(())
            } else {
                Err(IpnsError::InvalidV2Signature)
            }
        }),
{
    lemma_revision_payload_reads_back(r, validity);
}

/// Tampering, as far as it can be told without the cryptography. The verdict on an entry
/// that is judged by its second-generation signature does not depend on its first-generation
/// signature nor on the key it carries. If besides it has no value, validity, sequence
/// number and lifetime, the verdict does not depend on its validity type either.
pub proof fn lemma_v2_verdict_reads_signed_fields(
    e: EntryFields,
    signature: Seq<u8>,
    pub_key: Seq<u8>,
    validity_type: int,
    key: Seq<u8>,
)
    requires
        is_v2(e),
    ensures
        validation(EntryFields { signature, pub_key, ..e }, key) == validation(e, key),
        is_v2_only(e) ==> validation(EntryFields { signature, pub_key, validity_type, ..e }, key)
            == validation(e, key),
{
}

/// Tampering with what the signature covers. The verdict on an entry that is judged by its
/// second-generation signature is a bad signature exactly when that signature is not one of
/// the payload, as it stands in the entry, behind the prefix.
pub proof fn lemma_v2_signature_decides(e: EntryFields, key: Seq<u8>)
    requires
        is_v2(e),
    ensures
        validation(e, key) == Err::<(), IpnsError>(IpnsError::InvalidV2Signature)
            <==> !signature_verifies(key, v2_message(e.data), e.signature_v2),
{
}

/// Hybrid consistency. An entry that is judged by its second-generation signature, whose
/// signature verifies, and that has a value, a validity, a sequence number or a lifetime
/// beside its payload, is rejected for its data as soon as one of its five fields disagrees
/// with the payload.
pub proof fn lemma_hybrid_mismatch_rejected(e: EntryFields, p: PayloadFields, key: Seq<u8>)
    requires
        is_v2(e),
        signature_verifies(key, v2_message(e.data), e.signature_v2),
        parse_payload(e.data) == Some(p),
        !is_v2_only(e),
        !fields_match(e, p),
    ensures
        validation(e, key) == Err::<(), IpnsError>(IpnsError::InvalidV2SignatureData),
{
}

/// Hybrid consistency, the other way: such an entry whose five fields agree with the
/// payload is valid.
pub proof fn lemma_hybrid_match_accepted(e: EntryFields, p: PayloadFields, key: Seq<u8>)
    requires
        is_v2(e),
        signature_verifies(key, v2_message(e.data), e.signature_v2),
        parse_payload(e.data) == Some(p),
        fields_match(e, p),
    ensures
        validation(e, key) == Ok::<(), IpnsError>(()),
{
}

/// The bytes that are signed tell the values apart: two payloads with the same bytes hold
/// the same value, validity, sequence number and lifetime.
pub proof fn lemma_signed_payload_injective(
    value: Seq<u8>,
    validity: Seq<u8>,
    sequence: nat,
    ttl: nat,
    other_value: Seq<u8>,
    other_validity: Seq<u8>,
    other_sequence: nat,
    other_ttl: nat,
)
    requires
        value.len() <= u64::MAX,
        validity.len() <= u64::MAX,
        sequence <= u64::MAX,
        ttl <= u64::MAX,
        other_value.len() <= u64::MAX,
        other_validity.len() <= u64::MAX,
        other_sequence <= u64::MAX,
        other_ttl <= u64::MAX,
        signed_payload(value, validity, sequence, ttl) == signed_payload(
            other_value,
            other_validity,
            other_sequence,
            other_ttl,
        ),
    ensures
        value == other_value,
        validity == other_validity,
        sequence == other_sequence,
        ttl == other_ttl,
{
    lemma_signed_payload_round_trip(value, validity, sequence, ttl);
    lemma_signed_payload_round_trip(other_value, other_validity, other_sequence, other_ttl);
}

/// Monotone sequence: the revision that follows another has the next sequence number, and
/// speaks for the same name.
pub proof fn lemma_next_revision_sequence(r: RevisionView, value: Seq<char>, now: Instant)
    ensures
        next_revision(r, value, now).sequence == r.sequence + 1,
        next_revision(r, value, now).name == r.name,
        next_revision(r, value, now).value == value,
{
}

} // verus!
