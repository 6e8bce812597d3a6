//! The signed payload of a second-generation record: a CBOR map of five members.
//!
//! The members are written with text keys in a fixed order: `Value` and `Validity` as byte
//! strings, then `ValidityType`, `Sequence` and `TTL` as unsigned integers, every head in its
//! shortest form. These bytes are what the signature covers, so the same five values always
//! give the same bytes. Reading is lenient: the members may come in any order and in a map of
//! definite or indefinite length, integers may be wider than needed, and members with other
//! keys are read over. A key that occurs twice, or one of the five that is missing, is an error.

use crate::bytes::bytes_equal;
use crate::cbor::{
    byte_string, count_of, lemma_parse_string_of_encoding,
    lemma_parse_unsigned_of_encoding, member_len, one_fewer, parse_head, parse_string,
    parse_unsigned, read_head, read_string, read_unsigned, skip_item, text_string, unsigned,
    write_byte_string, write_text_string, write_unsigned, BREAK, MAX_DEPTH,
};
use vstd::prelude::*;
use vstd::slice::{slice_subrange, slice_to_vec};

verus! {

/// The five values that a second-generation signature covers.
#[derive(Clone, Debug, PartialEq, Eq)]
pub struct SignatureV2Data {
    pub value: Vec<u8>,
    pub validity: Vec<u8>,
    pub validity_type: u64,
    pub sequence: u64,
    pub ttl: u64,
}

/// What a payload holds, as mathematical values.
pub struct PayloadFields {
    pub value: Seq<u8>,
    pub validity: Seq<u8>,
    pub validity_type: nat,
    pub sequence: nat,
    pub ttl: nat,
}

impl View for SignatureV2Data {
    type V = PayloadFields;

    open spec fn view(&self) -> PayloadFields {
        PayloadFields {
            value: self.value@,
            validity: self.validity@,
            validity_type: self.validity_type as nat,
            sequence: self.sequence as nat,
            ttl: self.ttl as nat,
        }
    }
}

impl PayloadFields {
    /// Every field is one that a stored payload can hold: lengths and numbers fit in 64 bits.
    pub open spec fn in_range(self) -> bool {
        &&& self.value.len() <= u64::MAX
        &&& self.validity.len() <= u64::MAX
        &&& self.validity_type <= u64::MAX
        &&& self.sequence <= u64::MAX
        &&& self.ttl <= u64::MAX
    }
}

/// The key `Value`.
pub open spec fn key_value() -> Seq<u8> {
    seq![0x56u8, 0x61u8, 0x6cu8, 0x75u8, 0x65u8]
}

/// The key `Validity`.
pub open spec fn key_validity() -> Seq<u8> {
    seq![0x56u8, 0x61u8, 0x6cu8, 0x69u8, 0x64u8, 0x69u8, 0x74u8, 0x79u8]
}

/// The key `ValidityType`.
pub open spec fn key_validity_type() -> Seq<u8> {
    seq![
        0x56u8,
        0x61u8,
        0x6cu8,
        0x69u8,
        0x64u8,
        0x69u8,
        0x74u8,
        0x79u8,
        0x54u8,
        0x79u8,
        0x70u8,
        0x65u8,
    ]
}

/// The key `Sequence`.
pub open spec fn key_sequence() -> Seq<u8> {
    seq![0x53u8, 0x65u8, 0x71u8, 0x75u8, 0x65u8, 0x6eu8, 0x63u8, 0x65u8]
}

/// The key `TTL`.
pub open spec fn key_ttl() -> Seq<u8> {
    seq![0x54u8, 0x54u8, 0x4cu8]
}

/// The first byte of a payload as it is written: a map of five members.
pub const MAP_OF_FIVE: u8 = 0xa5;

/// The bytes of a payload as it is written.
pub open spec fn payload_wire(p: PayloadFields) -> Seq<u8> {
    seq![MAP_OF_FIVE] + text_string(key_value()) + byte_string(p.value) + text_string(
        key_validity(),
    ) + byte_string(p.validity) + text_string(key_validity_type()) + unsigned(p.validity_type)
        + text_string(key_sequence()) + unsigned(p.sequence) + text_string(key_ttl()) + unsigned(
        p.ttl,
    )
}

/// The bytes that are signed for a value, a validity text, a sequence number and a lifetime:
/// the payload with these and with validity type 0.
pub open spec fn signed_payload(value: Seq<u8>, validity: Seq<u8>, sequence: nat, ttl: nat) -> Seq<
    u8,
> {
    payload_wire(PayloadFields { value, validity, validity_type: 0, sequence, ttl })
}

/// The members of a payload that have been read so far.
pub struct Partial {
    pub value: Option<Seq<u8>>,
    pub validity: Option<Seq<u8>>,
    pub validity_type: Option<nat>,
    pub sequence: Option<nat>,
    pub ttl: Option<nat>,
}

/// No member read yet.
pub open spec fn no_members() -> Partial {
    Partial { value: None, validity: None, validity_type: None, sequence: None, ttl: None }
}

impl Partial {
    /// The payload, once all five members have been read.
    pub open spec fn complete(self) -> Option<PayloadFields> {
        if self.value is Some && self.validity is Some && self.validity_type is Some
            && self.sequence is Some && self.ttl is Some {
            Some(
                PayloadFields {
                    value: self.value->0,
                    validity: self.validity->0,
                    validity_type: self.validity_type->0,
                    sequence: self.sequence->0,
                    ttl: self.ttl->0,
                },
            )
        } else {
            None
        }
    }
}

/// How deep arrays, maps and tags may nest in a member that is read over.
pub open spec fn member_depth() -> nat {
    (MAX_DEPTH - 1) as nat
}

/// Reads a byte string for a member that `seen` tells was not read before.
pub open spec fn bytes_member(s: Seq<u8>, seen: bool) -> Option<(Seq<u8>, nat)> {
    if seen {
        None
    } else {
        parse_string(s, 2)
    }
}

/// Reads an unsigned integer for a member that `seen` tells was not read before.
pub open spec fn unsigned_member(s: Seq<u8>, seen: bool) -> Option<(nat, nat)> {
    if seen {
        None
    } else {
        parse_unsigned(s)
    }
}

/// Which of the five keys `k` is: 1 to 5 in the order of writing, 0 for none of them.
pub open spec fn key_index(k: Seq<u8>) -> nat {
    if k == key_value() {
        1
    } else if k == key_validity() {
        2
    } else if k == key_validity_type() {
        3
    } else if k == key_sequence() {
        4
    } else if k == key_ttl() {
        5
    } else {
        0
    }
}

/// The key at the front of `s`: which of the five it is, and its length as an item. Anything
/// but a text string of definite length counts as none of them.
pub open spec fn key_at(s: Seq<u8>) -> (nat, nat) {
    match parse_string(s, 3) {
        Some((k, n)) => (key_index(k), n),
        None => (0nat, 0nat),
    }
}

/// What has been read once member `which` is set to the bytes `b`.
pub open spec fn with_bytes_member(acc: Partial, which: nat, b: Seq<u8>) -> Partial {
    if which == 1 {
        Partial { value: Some(b), ..acc }
    } else {
        Partial { validity: Some(b), ..acc }
    }
}

/// What has been read once member `which` is set to the number `v`.
pub open spec fn with_unsigned_member(acc: Partial, which: nat, v: nat) -> Partial {
    if which == 3 {
        Partial { validity_type: Some(v), ..acc }
    } else if which == 4 {
        Partial { sequence: Some(v), ..acc }
    } else {
        Partial { ttl: Some(v), ..acc }
    }
}

/// Whether member `which` has been read.
pub open spec fn seen(acc: Partial, which: nat) -> bool {
    if which == 1 {
        acc.value is Some
    } else if which == 2 {
        acc.validity is Some
    } else if which == 3 {
        acc.validity_type is Some
    } else if which == 4 {
        acc.sequence is Some
    } else if which == 5 {
        acc.ttl is Some
    } else {
        false
    }
}

/// Reads one member from the front of `s` into `acc`: what has been read after it, and the
/// member's length. One of the five keys must come with a value of its type and only once.
/// Any other member is read over, whatever its key and value are.
pub open spec fn parse_member(s: Seq<u8>, acc: Partial) -> Option<(Partial, nat)> {
    let (which, n) = key_at(s);
    if which == 1 || which == 2 {
        match bytes_member(s.skip(n as int), seen(acc, which)) {
            Some((b, m)) => Some((with_bytes_member(acc, which, b), n + m)),
            None => None,
        }
    } else if 3 <= which <= 5 {
        match unsigned_member(s.skip(n as int), seen(acc, which)) {
            Some((v, m)) => Some((with_unsigned_member(acc, which, v), n + m)),
            None => None,
        }
    } else {
        other_member(s, acc)
    }
}

/// The length of a member with another key: a well-formed key and a well-formed value.
#[verifier::opaque]
pub open spec fn other_member_len(s: Seq<u8>) -> Option<nat> {
    member_len(s, true, member_depth())
}

/// Reads over a member with another key.
pub open spec fn other_member(s: Seq<u8>, acc: Partial) -> Option<(Partial, nat)> {
    match other_member_len(s) {
        Some(n) => Some((acc, n)),
        None => None,
    }
}

/// Reads the members of the map from the front of `s` into `acc`: `remaining` of them where
/// that is given, else as many as stand before the closing byte, which is counted in.
#[verifier::opaque]
pub open spec fn parse_members(s: Seq<u8>, remaining: Option<nat>, acc: Partial) -> Option<
    (Partial, nat),
>
    decreases s.len(),
{
    if remaining == Some(0nat) {
        Some((acc, 0nat))
    } else if remaining is None && s.len() > 0 && s[0] == BREAK {
        Some((acc, 1nat))
    } else {
        match parse_member(s, acc) {
            Some((next, n)) => if n == 0 || n > s.len() {
                None
            } else {
                match parse_members(s.skip(n as int), one_fewer(remaining), next) {
                    Some((p, r)) => Some((p, n + r)),
                    None => None,
                }
            },
            None => None,
        }
    }
}

/// The payload that `s` encodes, if it encodes one: a single map, with nothing after it, that
/// holds each of the five members once.
pub open spec fn parse_payload(s: Seq<u8>) -> Option<PayloadFields> {
    match parse_head(s) {
        Some(h) => if h.major != 5 || h.len > s.len() {
            None
        } else {
            match parse_members(
                s.skip(h.len as int),
                if h.info == 31 {
                    None
                } else {
                    Some(h.arg)
                },
                no_members(),
            ) {
                Some((p, n)) => if h.len + n == s.len() {
                    p.complete()
                } else {
                    None
                },
                None => None,
            }
        },
        None => None,
    }
}

/// Writes the payload for a value, a validity text, a sequence number and a lifetime. What
/// is written reads back as these four, with validity type 0.
pub fn encode_payload(value: &[u8], validity: &[u8], sequence: u64, ttl: u64) -> (out: Vec<u8>)
    ensures
        out@ == signed_payload(value@, validity@, sequence as nat, ttl as nat),
        parse_payload(out@) == Some(
            PayloadFields {
                value: value@,
                validity: validity@,
                validity_type: 0,
                sequence: sequence as nat,
                ttl: ttl as nat,
            },
        ),
{
    proof {
        let _ = (value.len(), validity.len());
        lemma_signed_payload_round_trip(value@, validity@, sequence as nat, ttl as nat);
    }
    let mut out: Vec<u8> = Vec::new();
    out.push(MAP_OF_FIVE);
    let key: Vec<u8> = vec![0x56u8, 0x61u8, 0x6cu8, 0x75u8, 0x65u8];
    assert(key@ =~= key_value());
    write_text_string(key.as_slice(), &mut out);
    write_byte_string(value, &mut out);
    let key: Vec<u8> = vec![0x56u8, 0x61u8, 0x6cu8, 0x69u8, 0x64u8, 0x69u8, 0x74u8, 0x79u8];
    assert(key@ =~= key_validity());
    write_text_string(key.as_slice(), &mut out);
    write_byte_string(validity, &mut out);
    let key: Vec<u8> = vec![
        0x56u8,
        0x61u8,
        0x6cu8,
        0x69u8,
        0x64u8,
        0x69u8,
        0x74u8,
        0x79u8,
        0x54u8,
        0x79u8,
        0x70u8,
        0x65u8,
    ];
    assert(key@ =~= key_validity_type());
    write_text_string(key.as_slice(), &mut out);
    write_unsigned(0, &mut out);
    let key: Vec<u8> = vec![0x53u8, 0x65u8, 0x71u8, 0x75u8, 0x65u8, 0x6eu8, 0x63u8, 0x65u8];
    assert(key@ =~= key_sequence());
    write_text_string(key.as_slice(), &mut out);
    write_unsigned(sequence, &mut out);
    let key: Vec<u8> = vec![0x54u8, 0x54u8, 0x4cu8];
    assert(key@ =~= key_ttl());
    write_text_string(key.as_slice(), &mut out);
    write_unsigned(ttl, &mut out);
    assert(out@ =~= signed_payload(value@, validity@, sequence as nat, ttl as nat));
    out
}

/// Tells which of the five keys `k` is.
fn classify_key(k: &[u8]) -> (which: u8)
    ensures
        which == key_index(k@),
{
    let value: Vec<u8> = vec![0x56u8, 0x61u8, 0x6cu8, 0x75u8, 0x65u8];
    assert(value@ =~= key_value());
    let validity: Vec<u8> = vec![0x56u8, 0x61u8, 0x6cu8, 0x69u8, 0x64u8, 0x69u8, 0x74u8, 0x79u8];
    assert(validity@ =~= key_validity());
    let validity_type: Vec<u8> = vec![
        0x56u8,
        0x61u8,
        0x6cu8,
        0x69u8,
        0x64u8,
        0x69u8,
        0x74u8,
        0x79u8,
        0x54u8,
        0x79u8,
        0x70u8,
        0x65u8,
    ];
    assert(validity_type@ =~= key_validity_type());
    let sequence: Vec<u8> = vec![0x53u8, 0x65u8, 0x71u8, 0x75u8, 0x65u8, 0x6eu8, 0x63u8, 0x65u8];
    assert(sequence@ =~= key_sequence());
    let ttl: Vec<u8> = vec![0x54u8, 0x54u8, 0x4cu8];
    assert(ttl@ =~= key_ttl());
    if bytes_equal(k, value.as_slice()) {
        1
    } else if bytes_equal(k, validity.as_slice()) {
        2
    } else if bytes_equal(k, validity_type.as_slice()) {
        3
    } else if bytes_equal(k, sequence.as_slice()) {
        4
    } else if bytes_equal(k, ttl.as_slice()) {
        5
    } else {
        0
    }
}

/// The members of a payload that have been read so far, as stored values.
pub struct PartialData {
    pub value: Option<Vec<u8>>,
    pub validity: Option<Vec<u8>>,
    pub validity_type: Option<u64>,
    pub sequence: Option<u64>,
    pub ttl: Option<u64>,
}

/// The bytes that an optional vector holds.
pub open spec fn bytes_of(v: Option<Vec<u8>>) -> Option<Seq<u8>> {
    match v {
        Some(b) => Some(b@),
        None => None,
    }
}

impl View for PartialData {
    type V = Partial;

    open spec fn view(&self) -> Partial {
        Partial {
            value: bytes_of(self.value),
            validity: bytes_of(self.validity),
            validity_type: count_of(self.validity_type),
            sequence: count_of(self.sequence),
            ttl: count_of(self.ttl),
        }
    }
}

/// The members at the front of `s` are none, or the closing byte, or a member and the
/// members after it.
proof fn lemma_members_step(s: Seq<u8>, remaining: Option<nat>, acc: Partial)
    ensures
        parse_members(s, remaining, acc) == if remaining == Some(0nat) {
            Some((acc, 0nat))
        } else if remaining is None && s.len() > 0 && s[0] == BREAK {
            Some((acc, 1nat))
        } else {
            match parse_member(s, acc) {
                Some((next, n)) => if n == 0 || n > s.len() {
                    None
                } else {
                    match parse_members(s.skip(n as int), one_fewer(remaining), next) {
                        Some((p, r)) => Some((p, n + r)),
                        None => None,
                    }
                },
                None => None,
            }
        },
{
    reveal(parse_members);
}

/// Reads the key at `pos`: which of the five it is, and the position after it.
fn read_key_at(s: &[u8], pos: usize) -> (r: (u8, usize))
    requires
        pos <= s@.len(),
    ensures
        r.0 == key_at(s@.skip(pos as int)).0,
        r.1 == pos + key_at(s@.skip(pos as int)).1,
        r.0 <= 5,
        pos <= r.1 <= s@.len(),
{
    match read_string(s, pos, 3) {
        Some((start, end)) => {
            let which = classify_key(slice_subrange(s, start, end));
            (which, end)
        },
        None => (0, pos),
    }
}

/// Reads a byte string at `pos` for a member that `seen` tells was not read before: its
/// content and the position after it.
fn read_bytes_member(s: &[u8], pos: usize, seen: bool) -> (r: Option<(Vec<u8>, usize)>)
    requires
        pos <= s@.len(),
    ensures
        match bytes_member(s@.skip(pos as int), seen) {
            Some((b, n)) => r matches Some((content, end)) && content@ == b && end == pos + n
                && pos < end <= s@.len(),
            None => r is None,
        },
{
    if seen {
        return None;
    }
    match read_string(s, pos, 2) {
        Some((start, end)) => Some((slice_to_vec(slice_subrange(s, start, end)), end)),
        None => None,
    }
}

/// Reads an unsigned integer at `pos` for a member that `seen` tells was not read before:
/// its value and the position after it.
fn read_unsigned_member(s: &[u8], pos: usize, seen: bool) -> (r: Option<(u64, usize)>)
    requires
        pos <= s@.len(),
    ensures
        match unsigned_member(s@.skip(pos as int), seen) {
            Some((v, n)) => r matches Some((value, end)) && value == v && end == pos + n && pos
                < end <= s@.len(),
            None => r is None,
        },
{
    if seen {
        return None;
    }
    read_unsigned(s, pos)
}

/// Reads over a member with another key at `pos`: the position after its value.
fn skip_other_member(s: &[u8], pos: usize) -> (r: Option<usize>)
    requires
        pos <= s@.len(),
    ensures
        match other_member_len(s@.skip(pos as int)) {
            Some(n) => r matches Some(end) && end == pos + n && pos < end <= s@.len(),
            None => r is None,
        },
{
    proof {
        reveal(other_member_len);
    }
    let after_key = match skip_item(s, pos, MAX_DEPTH - 1) {
        Some(end) => end,
        None => {
            return None;
        },
    };
    proof {
        assert(s@.skip(pos as int).skip(after_key - pos) =~= s@.skip(after_key as int));
    }
    skip_item(s, after_key, MAX_DEPTH - 1)
}

/// Tells whether member `which` has been read.
fn was_seen(acc: &PartialData, which: u8) -> (r: bool)
    ensures
        r == seen(acc@, which as nat),
{
    if which == 1 {
        acc.value.is_some()
    } else if which == 2 {
        acc.validity.is_some()
    } else if which == 3 {
        acc.validity_type.is_some()
    } else if which == 4 {
        acc.sequence.is_some()
    } else if which == 5 {
        acc.ttl.is_some()
    } else {
        false
    }
}

/// Reads one member at `pos` into `acc`: the position after it.
fn read_member(s: &[u8], pos: usize, acc: &mut PartialData) -> (r: Option<usize>)
    requires
        pos <= s@.len(),
    ensures
        match parse_member(s@.skip(pos as int), old(acc)@) {
            Some((next, n)) => r matches Some(end) && end == pos + n && pos < end <= s@.len()
                && final(acc)@ == next,
            None => r is None,
        },
{
    let (which, after_key) = read_key_at(s, pos);
    let already = was_seen(acc, which);
    proof {
        assert(s@.skip(pos as int).skip(after_key - pos) =~= s@.skip(after_key as int));
    }
    if which == 1 || which == 2 {
        match read_bytes_member(s, after_key, already) {
            Some((content, end)) => {
                if which == 1 {
                    acc.value = Some(content);
                } else {
                    acc.validity = Some(content);
                }
                Some(end)
            },
            None => None,
        }
    } else if which >= 3 {
        match read_unsigned_member(s, after_key, already) {
            Some((number, end)) => {
                if which == 3 {
                    acc.validity_type = Some(number);
                } else if which == 4 {
                    acc.sequence = Some(number);
                } else {
                    acc.ttl = Some(number);
                }
                Some(end)
            },
            None => None,
        }
    } else {
        skip_other_member(s, pos)
    }
}

/// Reads the members of the map at `start` into `acc`: the position after the last of them,
/// or after the closing byte where no count is given.
fn read_members(s: &[u8], start: usize, remaining: Option<u64>, acc: &mut PartialData) -> (r:
    Option<usize>)
    requires
        start <= s@.len(),
    ensures
        match parse_members(s@.skip(start as int), count_of(remaining), old(acc)@) {
            Some((p, n)) => r matches Some(end) && end == start + n && end <= s@.len()
                && final(acc)@ == p,
            None => r is None,
        },
{
    let ghost whole = parse_members(s@.skip(start as int), count_of(remaining), acc@);
    let mut pos: usize = start;
    let mut left: Option<u64> = remaining;
    loop
        invariant
            start <= pos <= s@.len(),
            whole == parse_members(s@.skip(start as int), count_of(remaining), old(acc)@),
            whole == match parse_members(s@.skip(pos as int), count_of(left), acc@) {
                Some((p, n)) => Some((p, (pos - start + n) as nat)),
                None => None,
            },
        decreases s@.len() - pos,
    {
        let ghost rest = s@.skip(pos as int);
        proof {
            lemma_members_step(rest, count_of(left), acc@);
        }
        match left {
            Some(k) => {
                if k == 0 {
                    return Some(pos);
                }
            },
            None => {
                if pos < s.len() && s[pos] == BREAK {
                    return Some(pos + 1);
                }
            },
        }
        let end = match read_member(s, pos, acc) {
            Some(end) => end,
            None => {
                return None;
            },
        };
        proof {
            assert(rest.skip(end - pos) =~= s@.skip(end as int));
        }
        left =
        match left {
            Some(k) => Some((k - 1) as u64),
            None => None,
        };
        pos = end;
    }
}

/// Reads a payload.
pub fn decode_payload(s: &[u8]) -> (r: Option<SignatureV2Data>)
    ensures
        match parse_payload(s@) {
            Some(p) => r matches Some(data) && data@ == p,
            None => r is None,
        },
{
    assert(s@.skip(0) =~= s@);
    let at = match read_head(s, 0) {
        Some(at) => at,
        None => {
            return None;
        },
    };
    if at.major != 5 {
        return None;
    }
    let remaining: Option<u64> = if at.info == 31 {
        None
    } else {
        Some(at.arg)
    };
    let mut acc = PartialData {
        value: None,
        validity: None,
        validity_type: None,
        sequence: None,
        ttl: None,
    };
    let end = match read_members(s, at.end, remaining, &mut acc) {
        Some(end) => end,
        None => {
            return None;
        },
    };
    if end != s.len() {
        return None;
    }
    match (acc.value, acc.validity, acc.validity_type, acc.sequence, acc.ttl) {
        (Some(value), Some(validity), Some(validity_type), Some(sequence), Some(ttl)) => Some(
            SignatureV2Data { value, validity, validity_type, sequence, ttl },
        ),
        _ => None,
    }
}

/// Member `i` of a payload as it is written, counted from 1: its key and its value.
#[verifier::opaque]
pub open spec fn member_wire(p: PayloadFields, i: nat) -> Seq<u8> {
    if i == 1 {
        text_string(key_value()) + byte_string(p.value)
    } else if i == 2 {
        text_string(key_validity()) + byte_string(p.validity)
    } else if i == 3 {
        text_string(key_validity_type()) + unsigned(p.validity_type)
    } else if i == 4 {
        text_string(key_sequence()) + unsigned(p.sequence)
    } else if i == 5 {
        text_string(key_ttl()) + unsigned(p.ttl)
    } else {
        Seq::empty()
    }
}

/// The members of a payload as they are written, from member `from` on.
pub open spec fn members_from(p: PayloadFields, from: nat) -> Seq<u8>
    decreases 6 - from,
{
    if from >= 6 {
        Seq::empty()
    } else {
        member_wire(p, from) + members_from(p, from + 1)
    }
}

/// What has been read of `p` once the members below `from` are through.
pub open spec fn members_below(p: PayloadFields, from: nat) -> Partial {
    Partial {
        value: if from > 1 {
            Some(p.value)
        } else {
            None
        },
        validity: if from > 2 {
            Some(p.validity)
        } else {
            None
        },
        validity_type: if from > 3 {
            Some(p.validity_type)
        } else {
            None
        },
        sequence: if from > 4 {
            Some(p.sequence)
        } else {
            None
        },
        ttl: if from > 5 {
            Some(p.ttl)
        } else {
            None
        },
    }
}

/// The five keys differ from one another.
proof fn lemma_keys_differ()
    ensures
        key_index(key_value()) == 1,
        key_index(key_validity()) == 2,
        key_index(key_validity_type()) == 3,
        key_index(key_sequence()) == 4,
        key_index(key_ttl()) == 5,
{
    assert(key_value().len() == 5);
    assert(key_validity().len() == 8);
    assert(key_validity_type().len() == 12);
    assert(key_sequence().len() == 8);
    assert(key_ttl().len() == 3);
    assert(key_validity()[0] != key_sequence()[0]);
}

/// A key, written in front of `rest`, is read as the key it is.
proof fn lemma_key_at(key: Seq<u8>, rest: Seq<u8>)
    requires
        key.len() <= u64::MAX,
    ensures
        key_at(text_string(key) + rest) == (key_index(key), text_string(key).len()),
        (text_string(key) + rest).skip(text_string(key).len() as int) == rest,
        text_string(key).len() >= 1,
{
    let s = text_string(key) + rest;
    assert(s =~= crate::cbor::head(3, key.len()) + key + rest);
    lemma_parse_string_of_encoding(3, key, rest);
    assert(s.skip(text_string(key).len() as int) =~= rest);
}

/// A bytes member, written in front of `rest`, is read as its content.
proof fn lemma_parse_bytes_member(key: Seq<u8>, b: Seq<u8>, rest: Seq<u8>, acc: Partial)
    requires
        key_index(key) == 1 || key_index(key) == 2,
        key.len() <= u64::MAX,
        b.len() <= u64::MAX,
        !seen(acc, key_index(key)),
    ensures
        parse_member(text_string(key) + byte_string(b) + rest, acc) == Some(
            (
                with_bytes_member(acc, key_index(key), b),
                (text_string(key) + byte_string(b)).len(),
            ),
        ),
        (text_string(key) + byte_string(b)).len() >= 1,
{
    let after = byte_string(b) + rest;
    assert(text_string(key) + byte_string(b) + rest =~= text_string(key) + after);
    lemma_key_at(key, after);
    assert(after =~= crate::cbor::head(2, b.len()) + b + rest);
    lemma_parse_string_of_encoding(2, b, rest);
}

/// An unsigned member, written in front of `rest`, is read as its value.
proof fn lemma_parse_unsigned_member(key: Seq<u8>, v: nat, rest: Seq<u8>, acc: Partial)
    requires
        3 <= key_index(key) <= 5,
        key.len() <= u64::MAX,
        v <= u64::MAX,
        !seen(acc, key_index(key)),
    ensures
        parse_member(text_string(key) + unsigned(v) + rest, acc) == Some(
            (
                with_unsigned_member(acc, key_index(key), v),
                (text_string(key) + unsigned(v)).len(),
            ),
        ),
        (text_string(key) + unsigned(v)).len() >= 1,
{
    let after = unsigned(v) + rest;
    assert(text_string(key) + unsigned(v) + rest =~= text_string(key) + after);
    lemma_key_at(key, after);
    lemma_parse_unsigned_of_encoding(v, rest);
}

/// Member `from` of `p`, written in front of `rest`, is read into what was read before it.
proof fn lemma_member_at(p: PayloadFields, from: nat, rest: Seq<u8>)
    requires
        p.in_range(),
        1 <= from <= 5,
    ensures
        parse_member(member_wire(p, from) + rest, members_below(p, from)) == Some(
            (members_below(p, from + 1), member_wire(p, from).len()),
        ),
        member_wire(p, from).len() >= 1,
{
    let acc = members_below(p, from);
    reveal(member_wire);
    lemma_keys_differ();
    if from == 1 {
        lemma_parse_bytes_member(key_value(), p.value, rest, acc);
    } else if from == 2 {
        lemma_parse_bytes_member(key_validity(), p.validity, rest, acc);
    } else if from == 3 {
        lemma_parse_unsigned_member(key_validity_type(), p.validity_type, rest, acc);
    } else if from == 4 {
        lemma_parse_unsigned_member(key_sequence(), p.sequence, rest, acc);
    } else {
        lemma_parse_unsigned_member(key_ttl(), p.ttl, rest, acc);
    }
}

/// Reading the members of `p` from `from` on, after those below it, gives all five.
proof fn lemma_read_members_from(p: PayloadFields, from: nat)
    requires
        p.in_range(),
        1 <= from <= 6,
    ensures
        parse_members(members_from(p, from), Some((6 - from) as nat), members_below(p, from))
            == Some((members_below(p, 6), members_from(p, from).len())),
    decreases 6 - from,
{
    let s = members_from(p, from);
    let acc = members_below(p, from);
    let left: Option<nat> = Some((6 - from) as nat);
    lemma_members_step(s, left, acc);
    if from < 6 {
        let rest = members_from(p, from + 1);
        let m = member_wire(p, from);
        lemma_read_members_from(p, from + 1);
        lemma_member_at(p, from, rest);
        assert(s == m + rest);
        assert(s.skip(m.len() as int) =~= rest);
        assert(one_fewer(left) == Some((6 - (from + 1)) as nat));
        assert(s.len() == m.len() + rest.len());
    }
}

/// Ten byte strings after a first byte, joined from the left, are the same joined in pairs
/// from the right.
proof fn lemma_join_members(
    first: Seq<u8>,
    a: Seq<u8>,
    b: Seq<u8>,
    c: Seq<u8>,
    d: Seq<u8>,
    e: Seq<u8>,
    f: Seq<u8>,
    g: Seq<u8>,
    h: Seq<u8>,
    i: Seq<u8>,
    j: Seq<u8>,
)
    ensures
        first + a + b + c + d + e + f + g + h + i + j == first + ((a + b) + ((c + d) + ((e + f)
            + ((g + h) + ((i + j) + Seq::<u8>::empty()))))),
{
    assert(first + a + b + c + d + e + f + g + h + i + j =~= first + ((a + b) + ((c + d) + ((e
        + f) + ((g + h) + ((i + j) + Seq::<u8>::empty()))))));
}

/// Reading a payload that was written gives the payload back.
pub proof fn lemma_payload_round_trip(p: PayloadFields)
    requires
        p.in_range(),
    ensures
        parse_payload(payload_wire(p)) == Some(p),
{
    let members = members_from(p, 1);
    let s = payload_wire(p);
    assert(s == seq![MAP_OF_FIVE] + members) by {
        reveal(member_wire);
        reveal_with_fuel(members_from, 7);
        lemma_join_members(
            seq![MAP_OF_FIVE],
            text_string(key_value()),
            byte_string(p.value),
            text_string(key_validity()),
            byte_string(p.validity),
            text_string(key_validity_type()),
            unsigned(p.validity_type),
            text_string(key_sequence()),
            unsigned(p.sequence),
            text_string(key_ttl()),
            unsigned(p.ttl),
        );
    }
    assert(s[0] == MAP_OF_FIVE);
    assert(parse_head(s) == Some(crate::cbor::Head { major: 5, info: 5, arg: 5, len: 1 }));
    assert(s.skip(1) =~= members);
    lemma_read_members_from(p, 1);
    assert(members_below(p, 1) == no_members());
    assert(members_below(p, 6).complete() == Some(p));
}

/// Reading the bytes that are signed gives back the four values with validity type 0.
pub proof fn lemma_signed_payload_round_trip(
    value: Seq<u8>,
    validity: Seq<u8>,
    sequence: nat,
    ttl: nat,
)
    requires
        value.len() <= u64::MAX,
        validity.len() <= u64::MAX,
        sequence <= u64::MAX,
        ttl <= u64::MAX,
    ensures
        parse_payload(signed_payload(value, validity, sequence, ttl)) == Some(
            PayloadFields { value, validity, validity_type: 0, sequence, ttl },
        ),
{
    lemma_payload_round_trip(PayloadFields { value, validity, validity_type: 0, sequence, ttl });
}

} // verus!
