//! The record envelope: a flat protobuf message of nine fields, and its encoding.
//!
//! Field numbers: value 1, signature 2, validity type 3, validity 4, sequence 5, ttl 6,
//! public key 7, second-generation signature 8, signed payload 9. A field that holds its default
//! (no bytes, or zero) is left out of the encoding. Fields with other numbers are read over.

use crate::bytes::append_bytes;
use crate::varint::{
    lemma_parse_varint_of_encoding, parse_varint, read_varint, varint, write_varint,
};
use vstd::prelude::*;
use vstd::slice::{slice_subrange, slice_to_vec};

verus! {

/// A record as it travels: the first-generation fields, the optional public key, and the
/// second-generation signature with the payload it signs.
#[derive(Clone, Debug, PartialEq, Eq)]
pub struct IpnsEntry {
    pub value: Vec<u8>,
    pub signature: Vec<u8>,
    pub validity_type: i32,
    pub validity: Vec<u8>,
    pub sequence: u64,
    pub ttl: u64,
    pub pub_key: Vec<u8>,
    pub signature_v2: Vec<u8>,
    pub data: Vec<u8>,
}

/// What an entry holds, as mathematical values.
pub struct EntryFields {
    pub value: Seq<u8>,
    pub signature: Seq<u8>,
    pub validity_type: int,
    pub validity: Seq<u8>,
    pub sequence: nat,
    pub ttl: nat,
    pub pub_key: Seq<u8>,
    pub signature_v2: Seq<u8>,
    pub data: Seq<u8>,
}

impl View for IpnsEntry {
    type V = EntryFields;

    open spec fn view(&self) -> EntryFields {
        EntryFields {
            value: self.value@,
            signature: self.signature@,
            validity_type: self.validity_type as int,
            validity: self.validity@,
            sequence: self.sequence as nat,
            ttl: self.ttl as nat,
            pub_key: self.pub_key@,
            signature_v2: self.signature_v2@,
            data: self.data@,
        }
    }
}

/// The entry whose every field holds its default.
pub open spec fn empty_fields() -> EntryFields {
    EntryFields {
        value: Seq::empty(),
        signature: Seq::empty(),
        validity_type: 0,
        validity: Seq::empty(),
        sequence: 0,
        ttl: 0,
        pub_key: Seq::empty(),
        signature_v2: Seq::empty(),
        data: Seq::empty(),
    }
}

impl EntryFields {
    /// Every field is one that a stored entry can hold: the lengths and counters fit in 64
    /// bits, the validity type in 32 signed bits.
    pub open spec fn in_range(self) -> bool {
        &&& self.value.len() <= u64::MAX
        &&& self.signature.len() <= u64::MAX
        &&& i32::MIN <= self.validity_type <= i32::MAX
        &&& self.validity.len() <= u64::MAX
        &&& self.sequence <= u64::MAX
        &&& self.ttl <= u64::MAX
        &&& self.pub_key.len() <= u64::MAX
        &&& self.signature_v2.len() <= u64::MAX
        &&& self.data.len() <= u64::MAX
    }

    /// This entry with the bytes field numbered `tag` replaced by `b`.
    pub open spec fn with_bytes(self, tag: nat, b: Seq<u8>) -> EntryFields {
        if tag == 1 {
            EntryFields { value: b, ..self }
        } else if tag == 2 {
            EntryFields { signature: b, ..self }
        } else if tag == 4 {
            EntryFields { validity: b, ..self }
        } else if tag == 7 {
            EntryFields { pub_key: b, ..self }
        } else if tag == 8 {
            EntryFields { signature_v2: b, ..self }
        } else if tag == 9 {
            EntryFields { data: b, ..self }
        } else {
            self
        }
    }
}

impl Default for IpnsEntry {
    fn default() -> (entry: IpnsEntry)
        ensures
            entry@ == empty_fields(),
    {
        IpnsEntry {
            value: Vec::new(),
            signature: Vec::new(),
            validity_type: 0,
            validity: Vec::new(),
            sequence: 0,
            ttl: 0,
            pub_key: Vec::new(),
            signature_v2: Vec::new(),
            data: Vec::new(),
        }
    }
}

/// How deep groups may nest in a field that is read over.
pub const SKIP_DEPTH: u32 = 100;

/// Whether field `tag` holds bytes.
pub open spec fn is_bytes_tag(tag: nat) -> bool {
    tag == 1 || tag == 2 || tag == 4 || tag == 7 || tag == 8 || tag == 9
}

/// The key byte of field `tag` with wire type `wire`, for the small tags of this message.
pub open spec fn key_byte(tag: nat, wire: nat) -> u8 {
    (tag * 8 + wire) as u8
}

/// A bytes field on the wire: nothing when empty, else key, length and content.
pub open spec fn bytes_field(tag: nat, b: Seq<u8>) -> Seq<u8> {
    if b.len() == 0 {
        Seq::empty()
    } else {
        seq![key_byte(tag, 2)] + varint(b.len()) + b
    }
}

/// An unsigned field on the wire: nothing when zero, else key and varint.
pub open spec fn uint_field(tag: nat, v: nat) -> Seq<u8> {
    if v == 0 {
        Seq::empty()
    } else {
        seq![key_byte(tag, 0)] + varint(v)
    }
}

/// A signed 32-bit value as the 64-bit pattern that stands for it on the wire.
pub open spec fn sign_extended(v: int) -> nat {
    if v >= 0 {
        v as nat
    } else {
        (v + 0x1_0000_0000_0000_0000) as nat
    }
}

/// The signed 32-bit value in the low 32 bits of a varint.
pub open spec fn low_signed_32(v: nat) -> int {
    let low = v % 0x1_0000_0000;
    if low >= 0x8000_0000 {
        low - 0x1_0000_0000
    } else {
        low as int
    }
}

/// The encoding of an entry: its fields in the order of their numbers.
pub open spec fn entry_wire(e: EntryFields) -> Seq<u8> {
    bytes_field(1, e.value) + bytes_field(2, e.signature) + uint_field(
        3,
        sign_extended(e.validity_type),
    ) + bytes_field(4, e.validity) + uint_field(5, e.sequence) + uint_field(6, e.ttl)
        + bytes_field(7, e.pub_key) + bytes_field(8, e.signature_v2) + bytes_field(9, e.data)
}

/// Reads a field key from the front of `s`: field number, wire type and the key's length.
/// The key must fit in 32 bits, the wire type be one of the six that exist, the number not 0.
pub open spec fn parse_key(s: Seq<u8>) -> Option<(nat, nat, nat)> {
    match parse_varint(s) {
        Some((k, n)) => if k > u32::MAX || k % 8 > 5 || k / 8 == 0 {
            None
        } else {
            Some((k / 8, k % 8, n))
        },
        None => None,
    }
}

/// Reads a length and that many bytes from the front of `s`: the bytes and what was consumed.
pub open spec fn length_delimited(s: Seq<u8>) -> Option<(Seq<u8>, nat)> {
    match parse_varint(s) {
        Some((len, n)) => if n + len <= s.len() {
            Some((s.subrange(n as int, (n + len) as int), n + len))
        } else {
            None
        },
        None => None,
    }
}

/// The length of the content of a field with wire type `wire` at the front of `s`, which is
/// read over. Groups may nest `depth` deep.
pub open spec fn skip_field(s: Seq<u8>, wire: nat, tag: nat, depth: nat) -> Option<nat>
    decreases depth, s.len(), 1nat,
{
    if depth == 0 {
        None
    } else if wire == 0 {
        match parse_varint(s) {
            Some((_, n)) => Some(n),
            None => None,
        }
    } else if wire == 1 {
        if s.len() >= 8 {
            Some(8nat)
        } else {
            None
        }
    } else if wire == 2 {
        match length_delimited(s) {
            Some((_, n)) => Some(n),
            None => None,
        }
    } else if wire == 3 {
        skip_group(s, tag, depth)
    } else if wire == 5 {
        if s.len() >= 4 {
            Some(4nat)
        } else {
            None
        }
    } else {
        None
    }
}

/// The length of the rest of group `tag` at the front of `s`: fields up to the end-of-group key
/// with the same number, that key included.
pub open spec fn skip_group(s: Seq<u8>, tag: nat, depth: nat) -> Option<nat>
    decreases depth, s.len(), 0nat,
{
    if depth == 0 {
        None
    } else {
        match parse_key(s) {
            None => None,
            Some((t, w, n)) => if w == 4 {
                if t == tag {
                    Some(n)
                } else {
                    None
                }
            } else if n == 0 || n > s.len() {
                None
            } else {
                match skip_field(s.skip(n as int), w, t, (depth - 1) as nat) {
                    None => None,
                    Some(m) => if n + m > s.len() {
                        None
                    } else {
                        match skip_group(s.skip((n + m) as int), tag, depth) {
                            None => None,
                            Some(r) => Some(n + m + r),
                        }
                    },
                }
            },
        }
    }
}

/// Reads the content of field `tag` from the front of `body` into `acc`: the entry after it
/// and the length of the content. A known field must come with its own wire type; a later
/// occurrence replaces an earlier one; an unknown field is read over.
pub open spec fn read_field(body: Seq<u8>, tag: nat, wire: nat, acc: EntryFields) -> Option<
    (EntryFields, nat),
> {
    if is_bytes_tag(tag) {
        if wire != 2 {
            None
        } else {
            match length_delimited(body) {
                Some((b, m)) => Some((acc.with_bytes(tag, b), m)),
                None => None,
            }
        }
    } else if tag == 3 || tag == 5 || tag == 6 {
        if wire != 0 {
            None
        } else {
            match parse_varint(body) {
                Some((v, m)) => Some(
                    (
                        if tag == 3 {
                            EntryFields { validity_type: low_signed_32(v), ..acc }
                        } else if tag == 5 {
                            EntryFields { sequence: v, ..acc }
                        } else {
                            EntryFields { ttl: v, ..acc }
                        },
                        m,
                    ),
                ),
                None => None,
            }
        }
    } else {
        match skip_field(body, wire, tag, SKIP_DEPTH as nat) {
            Some(m) => Some((acc, m)),
            None => None,
        }
    }
}

/// Reads fields from `s` into `acc` until `s` is used up.
pub open spec fn parse_fields(s: Seq<u8>, acc: EntryFields) -> Option<EntryFields>
    decreases s.len(),
{
    if s.len() == 0 {
        Some(acc)
    } else {
        match parse_key(s) {
            None => None,
            Some((tag, wire, n)) => if n == 0 || n > s.len() {
                None
            } else {
                match read_field(s.skip(n as int), tag, wire, acc) {
                    None => None,
                    Some((next, m)) => if n + m > s.len() {
                        None
                    } else {
                        parse_fields(s.skip((n + m) as int), next)
                    },
                }
            },
        }
    }
}

/// The entry that `s` encodes, if it encodes one.
pub open spec fn parse_entry(s: Seq<u8>) -> Option<EntryFields> {
    parse_fields(s, empty_fields())
}

/// Appends bytes field `tag` to `out`.
fn write_bytes_field(tag: u8, b: &[u8], out: &mut Vec<u8>)
    requires
        1 <= tag <= 15,
    ensures
        final(out)@ == old(out)@ + bytes_field(tag as nat, b@),
{
    if b.len() > 0 {
        out.push(tag * 8 + 2);
        write_varint(b.len() as u64, out);
        append_bytes(out, b);
    }
    assert(out@ =~= old(out)@ + bytes_field(tag as nat, b@));
}

/// Appends unsigned field `tag` to `out`.
fn write_uint_field(tag: u8, v: u64, out: &mut Vec<u8>)
    requires
        1 <= tag <= 15,
    ensures
        final(out)@ == old(out)@ + uint_field(tag as nat, v as nat),
{
    if v != 0 {
        out.push(tag * 8);
        write_varint(v, out);
    }
    assert(out@ =~= old(out)@ + uint_field(tag as nat, v as nat));
}

/// The 64-bit pattern that stands for a signed 32-bit value on the wire.
fn sign_extend(v: i32) -> (r: u64)
    ensures
        r == sign_extended(v as int),
{
    if v >= 0 {
        v as u64
    } else {
        let below: u64 = (-(v as i64)) as u64;
        u64::MAX - below + 1
    }
}

/// The signed 32-bit value in the low 32 bits of `v`.
fn low_signed(v: u64) -> (r: i32)
    ensures
        r == low_signed_32(v as nat),
{
    let low: u64 = v % 0x1_0000_0000;
    if low >= 0x8000_0000 {
        (low as i64 - 0x1_0000_0000) as i32
    } else {
        low as i32
    }
}

/// Encodes an entry. What is written reads back as the entry.
pub fn encode_entry(entry: &IpnsEntry) -> (out: Vec<u8>)
    ensures
        out@ == entry_wire(entry@),
        parse_entry(out@) == Some(entry@),
{
    proof {
        lemma_stored_entry_in_range(entry);
        lemma_entry_round_trip(entry@);
    }
    let mut out: Vec<u8> = Vec::new();
    write_bytes_field(1, entry.value.as_slice(), &mut out);
    write_bytes_field(2, entry.signature.as_slice(), &mut out);
    write_uint_field(3, sign_extend(entry.validity_type), &mut out);
    write_bytes_field(4, entry.validity.as_slice(), &mut out);
    write_uint_field(5, entry.sequence, &mut out);
    write_uint_field(6, entry.ttl, &mut out);
    write_bytes_field(7, entry.pub_key.as_slice(), &mut out);
    write_bytes_field(8, entry.signature_v2.as_slice(), &mut out);
    write_bytes_field(9, entry.data.as_slice(), &mut out);
    assert(out@ =~= entry_wire(entry@));
    out
}

/// Reads a field key at `pos`: field number, wire type and the position after the key.
fn read_key(s: &[u8], pos: usize) -> (r: Option<(u32, u8, usize)>)
    requires
        pos <= s@.len(),
    ensures
        match parse_key(s@.skip(pos as int)) {
            Some((tag, wire, n)) => r matches Some((t, w, end)) && t == tag && w == wire && t
                >= 1 && w <= 5 && end == pos + n && pos < end <= s@.len(),
            None => r is None,
        },
{
    match read_varint(s, pos) {
        Some((k, end)) => {
            if k > 0xffff_ffff || k % 8 > 5 || k / 8 == 0 {
                None
            } else {
                Some(((k / 8) as u32, (k % 8) as u8, end))
            }
        },
        None => None,
    }
}

/// Reads a length and that many bytes at `pos`: where the bytes start and where they end.
fn read_length_delimited(s: &[u8], pos: usize) -> (r: Option<(usize, usize)>)
    requires
        pos <= s@.len(),
    ensures
        match length_delimited(s@.skip(pos as int)) {
            Some((b, n)) => r matches Some((start, end)) && pos <= start <= end && end == pos + n
                && end <= s@.len() && b == s@.subrange(start as int, end as int),
            None => r is None,
        },
{
    match read_varint(s, pos) {
        Some((len, start)) => {
            if len > (s.len() - start) as u64 {
                None
            } else {
                let end: usize = start + len as usize;
                proof {
                    let rest = s@.skip(pos as int);
                    assert(rest.subrange(start - pos, end - pos) =~= s@.subrange(
                        start as int,
                        end as int,
                    ));
                }
                Some((start, end))
            }
        },
        None => None,
    }
}

/// Reads over the content of a field at `pos`: the position after it.
fn skip_field_at(s: &[u8], pos: usize, wire: u8, tag: u32, depth: u32) -> (r: Option<usize>)
    requires
        pos <= s@.len(),
    ensures
        match skip_field(s@.skip(pos as int), wire as nat, tag as nat, depth as nat) {
            Some(n) => r matches Some(end) && end == pos + n && end <= s@.len(),
            None => r is None,
        },
    decreases depth, 1nat,
{
    if depth == 0 {
        None
    } else if wire == 0 {
        match read_varint(s, pos) {
            Some((_, end)) => Some(end),
            None => None,
        }
    } else if wire == 1 {
        if s.len() - pos >= 8 {
            Some(pos + 8)
        } else {
            None
        }
    } else if wire == 2 {
        match read_length_delimited(s, pos) {
            Some((_, end)) => Some(end),
            None => None,
        }
    } else if wire == 3 {
        skip_group_at(s, pos, tag, depth)
    } else if wire == 5 {
        if s.len() - pos >= 4 {
            Some(pos + 4)
        } else {
            None
        }
    } else {
        None
    }
}

/// Reads over the rest of group `tag` at `start`: the position after its end-of-group key.
fn skip_group_at(s: &[u8], start: usize, tag: u32, depth: u32) -> (r: Option<usize>)
    requires
        start <= s@.len(),
        depth > 0,
    ensures
        match skip_group(s@.skip(start as int), tag as nat, depth as nat) {
            Some(n) => r matches Some(end) && end == start + n && end <= s@.len(),
            None => r is None,
        },
    decreases depth, 0nat,
{
    let mut pos: usize = start;
    loop
        invariant
            start <= pos <= s@.len(),
            depth > 0,
            match skip_group(s@.skip(pos as int), tag as nat, depth as nat) {
                Some(r) => skip_group(s@.skip(start as int), tag as nat, depth as nat) == Some(
                    (pos - start + r) as nat,
                ),
                None => skip_group(s@.skip(start as int), tag as nat, depth as nat) is None,
            },
        decreases s@.len() - pos,
    {
        let (t, w, after_key) = match read_key(s, pos) {
            Some(key) => key,
            None => {
                return None;
            },
        };
        if w == 4 {
            if t == tag {
                return Some(after_key);
            } else {
                return None;
            }
        }
        proof {
            assert(s@.skip(pos as int).skip(after_key - pos) =~= s@.skip(after_key as int));
        }
        let after_field = match skip_field_at(s, after_key, w, t, depth - 1) {
            Some(end) => end,
            None => {
                return None;
            },
        };
        proof {
            assert(s@.skip(pos as int).skip(after_field - pos) =~= s@.skip(after_field as int));
        }
        pos = after_field;
    }
}

/// Decodes an entry.
pub fn decode_entry(s: &[u8]) -> (r: Option<IpnsEntry>)
    ensures
        match parse_entry(s@) {
            Some(e) => r matches Some(entry) && entry@ == e,
            None => r is None,
        },
{
    let mut entry = IpnsEntry::default();
    let mut pos: usize = 0;
    assert(s@.skip(0) =~= s@);
    while pos < s.len()
        invariant
            pos <= s@.len(),
            parse_entry(s@) == parse_fields(s@.skip(pos as int), entry@),
        decreases s@.len() - pos,
    {
        let (tag, wire, after_key) = match read_key(s, pos) {
            Some(key) => key,
            None => {
                return None;
            },
        };
        proof {
            assert(s@.skip(pos as int).skip(after_key - pos) =~= s@.skip(after_key as int));
        }
        let after_field: usize;
        if tag == 1 || tag == 2 || tag == 4 || tag == 7 || tag == 8 || tag == 9 {
            if wire != 2 {
                return None;
            }
            let (start, end) = match read_length_delimited(s, after_key) {
                Some(range) => range,
                None => {
                    return None;
                },
            };
            let content = slice_to_vec(slice_subrange(s, start, end));
            if tag == 1 {
                entry.value = content;
            } else if tag == 2 {
                entry.signature = content;
            } else if tag == 4 {
                entry.validity = content;
            } else if tag == 7 {
                entry.pub_key = content;
            } else if tag == 8 {
                entry.signature_v2 = content;
            } else {
                entry.data = content;
            }
            after_field = end;
        } else if tag == 3 || tag == 5 || tag == 6 {
            if wire != 0 {
                return None;
            }
            let (v, end) = match read_varint(s, after_key) {
                Some(number) => number,
                None => {
                    return None;
                },
            };
            if tag == 3 {
                entry.validity_type = low_signed(v);
            } else if tag == 5 {
                entry.sequence = v;
            } else {
                entry.ttl = v;
            }
            after_field = end;
        } else {
            after_field = match skip_field_at(s, after_key, wire, tag, SKIP_DEPTH) {
                Some(end) => end,
                None => {
                    return None;
                },
            };
        }
        proof {
            assert(s@.skip(pos as int).skip(after_field - pos) =~= s@.skip(after_field as int));
        }
        pos = after_field;
    }
    Some(entry)
}

/// The low 32 bits of the pattern that stands for a signed 32-bit value are that value.
pub proof fn lemma_sign_extension_inverts(v: int)
    requires
        i32::MIN <= v <= i32::MAX,
    ensures
        low_signed_32(sign_extended(v)) == v,
        sign_extended(v) <= u64::MAX,
        sign_extended(v) == 0 <==> v == 0,
{
    if v < 0 {
        assert((v + 0x1_0000_0000_0000_0000) % 0x1_0000_0000 == v + 0x1_0000_0000) by {
            assert(0x1_0000_0000_0000_0000int == 0xffff_ffff * 0x1_0000_0000 + 0x1_0000_0000);
            vstd::arithmetic::div_mod::lemma_fundamental_div_mod_converse(
                v + 0x1_0000_0000_0000_0000,
                0x1_0000_0000,
                0xffff_ffff,
                v + 0x1_0000_0000,
            );
        }
    }
}

/// A bytes field in front of `rest` is read into the entry, and reading goes on with `rest`.
pub proof fn lemma_parse_bytes_field(tag: nat, b: Seq<u8>, rest: Seq<u8>, acc: EntryFields)
    requires
        is_bytes_tag(tag),
        b.len() <= u64::MAX,
    ensures
        parse_fields(bytes_field(tag, b) + rest, acc) == parse_fields(
            rest,
            if b.len() > 0 {
                acc.with_bytes(tag, b)
            } else {
                acc
            },
        ),
{
    let s = bytes_field(tag, b) + rest;
    if b.len() == 0 {
        assert(s =~= rest);
    } else {
        let body = varint(b.len()) + (b + rest);
        lemma_parse_varint_of_encoding(b.len(), b + rest);
        let n = varint(b.len()).len();
        assert(s[0] == key_byte(tag, 2));
        assert(parse_varint(s) == Some((key_byte(tag, 2) as nat, 1nat)));
        assert(parse_key(s) == Some((tag, 2nat, 1nat)));
        assert(s.skip(1) =~= body);
        assert(body.subrange(n as int, (n + b.len()) as int) =~= b);
        assert(length_delimited(body) == Some((b, n + b.len())));
        assert(s.skip((1 + (n + b.len())) as int) =~= rest);
    }
}

/// An unsigned field in front of `rest` is read as its value, and reading goes on with `rest`.
pub proof fn lemma_parse_uint_field(tag: nat, v: nat, rest: Seq<u8>, acc: EntryFields)
    requires
        tag == 3 || tag == 5 || tag == 6,
        v <= u64::MAX,
    ensures
        parse_fields(uint_field(tag, v) + rest, acc) == parse_fields(
            rest,
            if v == 0 {
                acc
            } else if tag == 3 {
                EntryFields { validity_type: low_signed_32(v), ..acc }
            } else if tag == 5 {
                EntryFields { sequence: v, ..acc }
            } else {
                EntryFields { ttl: v, ..acc }
            },
        ),
{
    let s = uint_field(tag, v) + rest;
    if v == 0 {
        assert(s =~= rest);
    } else {
        let body = varint(v) + rest;
        lemma_parse_varint_of_encoding(v, rest);
        let n = varint(v).len();
        assert(s[0] == key_byte(tag, 0));
        assert(parse_varint(s) == Some((key_byte(tag, 0) as nat, 1nat)));
        assert(parse_key(s) == Some((tag, 0nat, 1nat)));
        assert(s.skip(1) =~= body);
        assert(s.skip((1 + n) as int) =~= rest);
    }
}

/// The fields of an entry's encoding from field `from` on, the later ones grouped first.
pub open spec fn wire_from(e: EntryFields, from: nat) -> Seq<u8>
    decreases 10 - from,
{
    if from >= 10 {
        Seq::empty()
    } else {
        (if from == 1 {
            bytes_field(1, e.value)
        } else if from == 2 {
            bytes_field(2, e.signature)
        } else if from == 3 {
            uint_field(3, sign_extended(e.validity_type))
        } else if from == 4 {
            bytes_field(4, e.validity)
        } else if from == 5 {
            uint_field(5, e.sequence)
        } else if from == 6 {
            uint_field(6, e.ttl)
        } else if from == 7 {
            bytes_field(7, e.pub_key)
        } else if from == 8 {
            bytes_field(8, e.signature_v2)
        } else if from == 9 {
            bytes_field(9, e.data)
        } else {
            Seq::empty()
        }) + wire_from(e, from + 1)
    }
}

/// Nine byte strings joined from the left are the same joined from the right.
proof fn lemma_join_nine(
    a: Seq<u8>,
    b: Seq<u8>,
    c: Seq<u8>,
    d: Seq<u8>,
    e: Seq<u8>,
    f: Seq<u8>,
    g: Seq<u8>,
    h: Seq<u8>,
    i: Seq<u8>,
)
    ensures
        a + b + c + d + e + f + g + h + i == a + (b + (c + (d + (e + (f + (g + (h + (i
            + Seq::<u8>::empty())))))))),
{
    assert(a + b + c + d + e + f + g + h + i =~= a + (b + (c + (d + (e + (f + (g + (h + (i
        + Seq::<u8>::empty())))))))));
}

/// The encoding of an entry is its fields from the first on.
proof fn lemma_wire_from_first(e: EntryFields)
    ensures
        entry_wire(e) == wire_from(e, 1),
{
    reveal_with_fuel(wire_from, 11);
    lemma_join_nine(
        bytes_field(1, e.value),
        bytes_field(2, e.signature),
        uint_field(3, sign_extended(e.validity_type)),
        bytes_field(4, e.validity),
        uint_field(5, e.sequence),
        uint_field(6, e.ttl),
        bytes_field(7, e.pub_key),
        bytes_field(8, e.signature_v2),
        bytes_field(9, e.data),
    );
}

/// What has been read of `e` once the fields below `from` are through.
pub open spec fn read_below(e: EntryFields, from: nat) -> EntryFields {
    EntryFields {
        value: if from > 1 {
            e.value
        } else {
            Seq::empty()
        },
        signature: if from > 2 {
            e.signature
        } else {
            Seq::empty()
        },
        validity_type: if from > 3 {
            e.validity_type
        } else {
            0
        },
        validity: if from > 4 {
            e.validity
        } else {
            Seq::empty()
        },
        sequence: if from > 5 {
            e.sequence
        } else {
            0
        },
        ttl: if from > 6 {
            e.ttl
        } else {
            0
        },
        pub_key: if from > 7 {
            e.pub_key
        } else {
            Seq::empty()
        },
        signature_v2: if from > 8 {
            e.signature_v2
        } else {
            Seq::empty()
        },
        data: if from > 9 {
            e.data
        } else {
            Seq::empty()
        },
    }
}

/// Reading the fields of `e` from `from` on, after those below it, gives `e`.
proof fn lemma_read_from(e: EntryFields, from: nat)
    requires
        e.in_range(),
        1 <= from <= 10,
    ensures
        parse_fields(wire_from(e, from), read_below(e, from)) == Some(e),
    decreases 10 - from,
{
    let acc = read_below(e, from);
    let next = read_below(e, from + 1);
    let rest = wire_from(e, from + 1);
    if from == 10 {
        assert(acc.value =~= e.value);
        assert(acc == e);
    } else {
        lemma_read_from(e, from + 1);
        lemma_sign_extension_inverts(e.validity_type);
        if from == 1 {
            lemma_parse_bytes_field(1, e.value, rest, acc);
            assert(next.value =~= if e.value.len() > 0 {
                acc.with_bytes(1, e.value).value
            } else {
                acc.value
            });
        } else if from == 2 {
            lemma_parse_bytes_field(2, e.signature, rest, acc);
            assert(next.signature =~= if e.signature.len() > 0 {
                acc.with_bytes(2, e.signature).signature
            } else {
                acc.signature
            });
        } else if from == 3 {
            lemma_parse_uint_field(3, sign_extended(e.validity_type), rest, acc);
        } else if from == 4 {
            lemma_parse_bytes_field(4, e.validity, rest, acc);
            assert(next.validity =~= if e.validity.len() > 0 {
                acc.with_bytes(4, e.validity).validity
            } else {
                acc.validity
            });
        } else if from == 5 {
            lemma_parse_uint_field(5, e.sequence, rest, acc);
        } else if from == 6 {
            lemma_parse_uint_field(6, e.ttl, rest, acc);
        } else if from == 7 {
            lemma_parse_bytes_field(7, e.pub_key, rest, acc);
            assert(next.pub_key =~= if e.pub_key.len() > 0 {
                acc.with_bytes(7, e.pub_key).pub_key
            } else {
                acc.pub_key
            });
        } else if from == 8 {
            lemma_parse_bytes_field(8, e.signature_v2, rest, acc);
            assert(next.signature_v2 =~= if e.signature_v2.len() > 0 {
                acc.with_bytes(8, e.signature_v2).signature_v2
            } else {
                acc.signature_v2
            });
        } else {
            lemma_parse_bytes_field(9, e.data, rest, acc);
            assert(next.data =~= if e.data.len() > 0 {
                acc.with_bytes(9, e.data).data
            } else {
                acc.data
            });
        }
    }
}

/// Decoding the encoding of an entry gives the entry back.
pub proof fn lemma_entry_round_trip(e: EntryFields)
    requires
        e.in_range(),
    ensures
        parse_entry(entry_wire(e)) == Some(e),
{
    lemma_wire_from_first(e);
    lemma_read_from(e, 1);
}

/// The fields of a stored entry are in range.
pub proof fn lemma_stored_entry_in_range(entry: &IpnsEntry)
    ensures
        entry@.in_range(),
{
    let _ = (
        entry.value.len(),
        entry.signature.len(),
        entry.validity.len(),
        entry.pub_key.len(),
        entry.signature_v2.len(),
        entry.data.len(),
    );
}

} // verus!
