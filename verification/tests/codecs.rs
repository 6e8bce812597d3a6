use std::collections::BTreeMap;

use serde_cbor::Value;
use w3name::cbor::{
    read_head, read_string, read_unsigned, skip_item, write_byte_string, write_head,
    write_text_string, write_unsigned,
};
use w3name::entry::{decode_entry, encode_entry, IpnsEntry};
use w3name::error::IpnsError;
use w3name::ipns::{deserialize_ipns_entry, serialize_ipns_entry, v2_signature_data};
use w3name::payload::{decode_payload, encode_payload, SignatureV2Data};
use w3name::varint::{read_varint, write_varint};

fn varint_of(v: u64) -> Vec<u8> {
    let mut out = Vec::new();
    write_varint(v, &mut out);
    out
}

#[test]
fn varint_has_the_shortest_form() {
    assert_eq!(varint_of(0), vec![0x00]);
    assert_eq!(varint_of(1), vec![0x01]);
    assert_eq!(varint_of(127), vec![0x7f]);
    assert_eq!(varint_of(128), vec![0x80, 0x01]);
    assert_eq!(varint_of(300), vec![0xac, 0x02]);
    assert_eq!(
        varint_of(u64::MAX),
        vec![0xff, 0xff, 0xff, 0xff, 0xff, 0xff, 0xff, 0xff, 0xff, 0x01]
    );
}

#[test]
fn varint_appends_to_what_is_there() {
    let mut out = vec![9u8];
    write_varint(300, &mut out);
    assert_eq!(out, vec![9, 0xac, 0x02]);
}

#[test]
fn varint_reads_back() {
    for v in [0u64, 1, 127, 128, 300, 16_383, 16_384, u32::MAX as u64, u64::MAX] {
        let bytes = varint_of(v);
        assert_eq!(read_varint(&bytes, 0), Some((v, bytes.len())));
    }
    assert_eq!(read_varint(&[7, 0xac, 0x02, 5], 1), Some((300, 3)));
}

#[test]
fn varint_longer_than_needed_is_read() {
    assert_eq!(read_varint(&[0x80, 0x00], 0), Some((0, 2)));
    assert_eq!(read_varint(&[0x81, 0x80, 0x00], 0), Some((1, 3)));
}

#[test]
fn varint_that_is_cut_or_too_long_is_refused() {
    assert_eq!(read_varint(&[], 0), None);
    assert_eq!(read_varint(&[0x80], 0), None);
    assert_eq!(read_varint(&[0x01], 1), None);
    let eleven = [0x80u8, 0x80, 0x80, 0x80, 0x80, 0x80, 0x80, 0x80, 0x80, 0x80, 0x01];
    assert_eq!(read_varint(&eleven, 0), None);
    let overflow = [0xffu8, 0xff, 0xff, 0xff, 0xff, 0xff, 0xff, 0xff, 0xff, 0x02];
    assert_eq!(read_varint(&overflow, 0), None);
}

fn sample_entry() -> IpnsEntry {
    IpnsEntry {
        value: b"/ipfs/x".to_vec(),
        signature: vec![1, 2, 3],
        validity_type: 0,
        validity: b"2030-01-02T03:04:05Z".to_vec(),
        sequence: 300,
        ttl: 300_000_000_000,
        pub_key: vec![8, 1, 18, 0],
        signature_v2: vec![4; 64],
        data: vec![0xa0],
    }
}

fn prost_encoding(entry: &IpnsEntry) -> Vec<u8> {
    let mut buf: Vec<u8> = Vec::new();
    if !entry.value.is_empty() {
        prost::encoding::bytes::encode(1, &entry.value, &mut buf);
    }
    if !entry.signature.is_empty() {
        prost::encoding::bytes::encode(2, &entry.signature, &mut buf);
    }
    if entry.validity_type != 0 {
        prost::encoding::int32::encode(3, &entry.validity_type, &mut buf);
    }
    if !entry.validity.is_empty() {
        prost::encoding::bytes::encode(4, &entry.validity, &mut buf);
    }
    if entry.sequence != 0 {
        prost::encoding::uint64::encode(5, &entry.sequence, &mut buf);
    }
    if entry.ttl != 0 {
        prost::encoding::uint64::encode(6, &entry.ttl, &mut buf);
    }
    if !entry.pub_key.is_empty() {
        prost::encoding::bytes::encode(7, &entry.pub_key, &mut buf);
    }
    if !entry.signature_v2.is_empty() {
        prost::encoding::bytes::encode(8, &entry.signature_v2, &mut buf);
    }
    if !entry.data.is_empty() {
        prost::encoding::bytes::encode(9, &entry.data, &mut buf);
    }
    buf
}

#[test]
fn entry_bytes_are_exact() {
    let entry = IpnsEntry {
        value: vec![0x61],
        sequence: 300,
        data: vec![0xa0, 0x01],
        ..IpnsEntry::default()
    };
    assert_eq!(
        encode_entry(&entry),
        vec![0x0a, 0x01, 0x61, 0x28, 0xac, 0x02, 0x4a, 0x02, 0xa0, 0x01]
    );
    assert_eq!(encode_entry(&IpnsEntry::default()), Vec::<u8>::new());
}

#[test]
fn entry_bytes_are_those_of_protobuf() {
    let mut entries = vec![sample_entry(), IpnsEntry::default()];
    let mut negative = sample_entry();
    negative.validity_type = -1;
    entries.push(negative);
    let mut lowest = sample_entry();
    lowest.validity_type = i32::MIN;
    lowest.sequence = u64::MAX;
    entries.push(lowest);
    let mut highest = sample_entry();
    highest.validity_type = i32::MAX;
    highest.value = vec![7; 200];
    entries.push(highest);
    for entry in entries {
        assert_eq!(encode_entry(&entry), prost_encoding(&entry));
        assert_eq!(serialize_ipns_entry(&entry).unwrap(), prost_encoding(&entry));
    }
}

#[test]
fn entry_reads_back() {
    let mut negative = sample_entry();
    negative.validity_type = -7;
    for entry in [sample_entry(), IpnsEntry::default(), negative] {
        let bytes = encode_entry(&entry);
        assert_eq!(decode_entry(&bytes), Some(entry.clone()));
        assert_eq!(deserialize_ipns_entry(&bytes), Ok(entry));
    }
}

#[test]
fn entry_fields_may_come_in_any_order_and_the_last_wins() {
    let bytes = vec![0x28, 0x05, 0x0a, 0x01, 0x61, 0x28, 0x07, 0x0a, 0x02, 0x62, 0x63];
    let entry = decode_entry(&bytes).unwrap();
    assert_eq!(entry.sequence, 7);
    assert_eq!(entry.value, b"bc".to_vec());
}

#[test]
fn unknown_fields_are_read_over() {
    let mut bytes = Vec::new();
    prost::encoding::uint64::encode(15, &99u64, &mut bytes);
    prost::encoding::bytes::encode(1, &b"v".to_vec(), &mut bytes);
    prost::encoding::fixed32::encode(16, &5u32, &mut bytes);
    prost::encoding::fixed64::encode(17, &6u64, &mut bytes);
    prost::encoding::string::encode(18, &"other".to_string(), &mut bytes);
    // a group with number 19 that holds a varint field and a nested group
    bytes.extend_from_slice(&[0x9b, 0x01, 0x08, 0x01, 0xa3, 0x01, 0xa4, 0x01, 0x9c, 0x01]);
    prost::encoding::uint64::encode(5, &3u64, &mut bytes);
    let entry = decode_entry(&bytes).unwrap();
    assert_eq!(entry.value, b"v".to_vec());
    assert_eq!(entry.sequence, 3);
    assert_eq!(encode_entry(&entry), vec![0x0a, 0x01, 0x76, 0x28, 0x03]);
}

#[test]
fn validity_type_keeps_its_low_32_bits() {
    let mut bytes = Vec::new();
    prost::encoding::uint64::encode(3, &0x1_0000_0005u64, &mut bytes);
    assert_eq!(decode_entry(&bytes).unwrap().validity_type, 5);
    let mut bytes = Vec::new();
    prost::encoding::uint64::encode(3, &0xffff_fffeu64, &mut bytes);
    assert_eq!(decode_entry(&bytes).unwrap().validity_type, -2);
}

#[test]
fn malformed_entries_are_refused() {
    let bad: Vec<Vec<u8>> = vec![
        vec![0x0a],
        vec![0x0a, 0x05, 0x61],
        vec![0x08, 0x01],
        vec![0x2a, 0x01, 0x61],
        vec![0x00, 0x01],
        vec![0x0e, 0x01],
        vec![0x0f],
        vec![0x7c],
        vec![0x7b, 0x08, 0x01],
        vec![0x7b, 0x84, 0x01],
        vec![0x7d, 0x01, 0x02, 0x03],
        vec![0x79, 0x01, 0x02, 0x03, 0x04, 0x05, 0x06, 0x07],
        vec![0x80, 0x80, 0x80, 0x80, 0x10, 0x01],
    ];
    for bytes in bad {
        assert_eq!(decode_entry(&bytes), None, "{:?}", bytes);
        assert_eq!(deserialize_ipns_entry(&bytes), Err(IpnsError::Decode));
    }
}

#[test]
fn groups_nest_up_to_a_limit() {
    let mut deep = Vec::new();
    for _ in 0..99 {
        deep.push(0x7b);
    }
    for _ in 0..99 {
        deep.push(0x7c);
    }
    assert!(decode_entry(&deep).is_some());
    let mut too_deep = Vec::new();
    for _ in 0..101 {
        too_deep.push(0x7b);
    }
    for _ in 0..101 {
        too_deep.push(0x7c);
    }
    assert_eq!(decode_entry(&too_deep), None);
}

#[test]
fn payload_bytes_are_exact() {
    let expected: Vec<u8> = vec![
        0xa5, 0x65, 0x56, 0x61, 0x6c, 0x75, 0x65, 0x42, 0x61, 0x62, 0x68, 0x56, 0x61, 0x6c, 0x69,
        0x64, 0x69, 0x74, 0x79, 0x41, 0x5a, 0x6c, 0x56, 0x61, 0x6c, 0x69, 0x64, 0x69, 0x74, 0x79,
        0x54, 0x79, 0x70, 0x65, 0x00, 0x68, 0x53, 0x65, 0x71, 0x75, 0x65, 0x6e, 0x63, 0x65, 0x01,
        0x63, 0x54, 0x54, 0x4c, 0x1b, 0x00, 0x00, 0x00, 0x45, 0xd9, 0x64, 0xb8, 0x00,
    ];
    assert_eq!(encode_payload(b"ab", b"Z", 1, 300_000_000_000), expected);
    assert_eq!(v2_signature_data("ab", "Z", 1, 300_000_000_000).unwrap(), expected);
}

#[test]
fn payload_bytes_are_the_same_every_time() {
    let first = encode_payload(b"such value. much wow", b"2030-01-02T03:04:05.000000000Z", 7, 9);
    let second = encode_payload(b"such value. much wow", b"2030-01-02T03:04:05.000000000Z", 7, 9);
    assert_eq!(first, second);
    let other = encode_payload(b"such value. much wow", b"2030-01-02T03:04:05.000000000Z", 8, 9);
    assert_ne!(first, other);
}

#[test]
fn payload_is_what_a_cbor_reader_sees() {
    let value = vec![0x2f; 300];
    let bytes = encode_payload(&value, b"2030-01-02T03:04:05.000000000Z", 70_000, u64::MAX);
    let read: Value = serde_cbor::from_slice(&bytes).unwrap();
    let mut expected = BTreeMap::new();
    expected.insert(Value::Text("Value".to_string()), Value::Bytes(value));
    expected.insert(
        Value::Text("Validity".to_string()),
        Value::Bytes(b"2030-01-02T03:04:05.000000000Z".to_vec()),
    );
    expected.insert(Value::Text("ValidityType".to_string()), Value::Integer(0));
    expected.insert(Value::Text("Sequence".to_string()), Value::Integer(70_000));
    expected.insert(Value::Text("TTL".to_string()), Value::Integer(u64::MAX as i128));
    assert_eq!(read, Value::Map(expected));
}

#[test]
fn payload_heads_are_the_shortest() {
    for n in [0u64, 23, 24, 255, 256, 65_535, 65_536, u32::MAX as u64, u32::MAX as u64 + 1] {
        let mut ours = Vec::new();
        write_unsigned(n, &mut ours);
        assert_eq!(ours, serde_cbor::to_vec(&Value::Integer(n as i128)).unwrap());
        assert_eq!(read_unsigned(&ours, 0), Some((n, ours.len())));
    }
    let mut ours = Vec::new();
    write_byte_string(&[1, 2, 3], &mut ours);
    assert_eq!(ours, vec![0x43, 1, 2, 3]);
    let mut ours = Vec::new();
    write_text_string(b"TTL", &mut ours);
    assert_eq!(ours, vec![0x63, 0x54, 0x54, 0x4c]);
    let mut ours = Vec::new();
    write_head(5, 5, &mut ours);
    assert_eq!(ours, vec![0xa5]);
    let long = vec![0u8; 70_000];
    let mut ours = Vec::new();
    write_byte_string(&long, &mut ours);
    assert_eq!(ours, serde_cbor::to_vec(&Value::Bytes(long)).unwrap());
}

#[test]
fn payload_reads_back() {
    let bytes = encode_payload(b"ab", b"Z", 1, 300_000_000_000);
    assert_eq!(
        decode_payload(&bytes),
        Some(SignatureV2Data {
            value: b"ab".to_vec(),
            validity: b"Z".to_vec(),
            validity_type: 0,
            sequence: 1,
            ttl: 300_000_000_000,
        })
    );
    let empty = encode_payload(b"", b"", 0, 0);
    assert_eq!(
        decode_payload(&empty),
        Some(SignatureV2Data {
            value: Vec::new(),
            validity: Vec::new(),
            validity_type: 0,
            sequence: 0,
            ttl: 0,
        })
    );
}

fn cbor_map(entries: Vec<(Value, Value)>) -> Vec<u8> {
    let mut map = BTreeMap::new();
    for (key, value) in entries {
        map.insert(key, value);
    }
    serde_cbor::to_vec(&Value::Map(map)).unwrap()
}

fn five_members() -> Vec<(Value, Value)> {
    vec![
        (Value::Text("Value".to_string()), Value::Bytes(b"ab".to_vec())),
        (Value::Text("Validity".to_string()), Value::Bytes(b"Z".to_vec())),
        (Value::Text("ValidityType".to_string()), Value::Integer(0)),
        (Value::Text("Sequence".to_string()), Value::Integer(9)),
        (Value::Text("TTL".to_string()), Value::Integer(5)),
    ]
}

fn the_five() -> SignatureV2Data {
    SignatureV2Data {
        value: b"ab".to_vec(),
        validity: b"Z".to_vec(),
        validity_type: 0,
        sequence: 9,
        ttl: 5,
    }
}

#[test]
fn payload_members_may_come_in_any_order() {
    let bytes = cbor_map(five_members());
    assert_ne!(bytes, encode_payload(b"ab", b"Z", 9, 5));
    assert_eq!(decode_payload(&bytes), Some(the_five()));
}

#[test]
fn payload_members_with_other_keys_are_read_over() {
    let mut members = five_members();
    members.push((Value::Text("Extra".to_string()), Value::Array(vec![
        Value::Integer(-5),
        Value::Text("x".to_string()),
        Value::Bool(true),
        Value::Null,
        Value::Float(1.5),
        Value::Map(BTreeMap::new()),
    ])));
    members.push((Value::Integer(4), Value::Bytes(vec![0; 30])));
    members.push((Value::Bytes(b"Value".to_vec()), Value::Integer(1)));
    let bytes = cbor_map(members);
    assert_eq!(decode_payload(&bytes), Some(the_five()));
}

#[test]
fn payload_in_a_map_of_indefinite_length_is_read() {
    let definite = encode_payload(b"ab", b"Z", 9, 5);
    let mut bytes = vec![0xbf];
    bytes.extend_from_slice(&definite[1..]);
    // a member with an indefinite text key and an indefinite array of chunks as value
    bytes.extend_from_slice(&[0x7f, 0x61, 0x61, 0x61, 0x62, 0xff]);
    bytes.extend_from_slice(&[0x9f, 0x5f, 0x41, 0x01, 0xff, 0xff]);
    // a member with a tagged key and a tagged value
    bytes.extend_from_slice(&[0xc1, 0x00, 0xd8, 0x18, 0x41, 0x01]);
    bytes.push(0xff);
    assert_eq!(decode_payload(&bytes), Some(the_five()));
}

#[test]
fn payload_numbers_wider_than_needed_are_read() {
    let mut bytes = vec![0xa5];
    bytes.extend_from_slice(&[0x65, 0x56, 0x61, 0x6c, 0x75, 0x65, 0x58, 0x02, 0x61, 0x62]);
    bytes.extend_from_slice(&[0x68, 0x56, 0x61, 0x6c, 0x69, 0x64, 0x69, 0x74, 0x79]);
    bytes.extend_from_slice(&[0x59, 0x00, 0x01, 0x5a]);
    bytes.extend_from_slice(&[
        0x6c, 0x56, 0x61, 0x6c, 0x69, 0x64, 0x69, 0x74, 0x79, 0x54, 0x79, 0x70, 0x65, 0x18, 0x00,
    ]);
    bytes.extend_from_slice(&[0x68, 0x53, 0x65, 0x71, 0x75, 0x65, 0x6e, 0x63, 0x65]);
    bytes.extend_from_slice(&[0x1a, 0, 0, 0, 9]);
    bytes.extend_from_slice(&[0x63, 0x54, 0x54, 0x4c, 0x1b, 0, 0, 0, 0, 0, 0, 0, 5]);
    assert_eq!(decode_payload(&bytes), Some(the_five()));
}

#[test]
fn malformed_payloads_are_refused() {
    let good = encode_payload(b"ab", b"Z", 9, 5);
    assert_eq!(decode_payload(&[]), None);
    assert_eq!(decode_payload(&good[..good.len() - 1]), None);
    let mut trailing = good.clone();
    trailing.push(0x00);
    assert_eq!(decode_payload(&trailing), None);
    // only four of the five members
    let mut members = five_members();
    members.pop();
    assert_eq!(decode_payload(&cbor_map(members)), None);
    // a member twice
    let mut twice = vec![0xa6];
    twice.extend_from_slice(&good[1..]);
    twice.extend_from_slice(&[0x63, 0x54, 0x54, 0x4c, 0x05]);
    assert_eq!(decode_payload(&twice), None);
    // a value of another type
    let mut members = five_members();
    members[0].1 = Value::Text("ab".to_string());
    assert_eq!(decode_payload(&cbor_map(members)), None);
    let mut members = five_members();
    members[3].1 = Value::Integer(-1);
    assert_eq!(decode_payload(&cbor_map(members)), None);
    // not a map
    assert_eq!(decode_payload(&serde_cbor::to_vec(&Value::Array(Vec::new())).unwrap()), None);
    // an indefinite map that is not closed
    let mut open = vec![0xbf];
    open.extend_from_slice(&good[1..]);
    assert_eq!(decode_payload(&open), None);
}

#[test]
fn items_are_measured() {
    assert_eq!(skip_item(&[0x00], 0, 128), Some(1));
    assert_eq!(skip_item(&[0x18, 0x20], 0, 128), Some(2));
    assert_eq!(skip_item(&[0x38, 0x20, 0x00], 0, 128), Some(2));
    assert_eq!(skip_item(&[0x43, 1, 2, 3, 9], 0, 128), Some(4));
    assert_eq!(skip_item(&[0x43, 1, 2], 0, 128), None);
    assert_eq!(skip_item(&[0x82, 0x01, 0x81, 0x02], 0, 128), Some(4));
    assert_eq!(skip_item(&[0xa1, 0x01, 0x02], 0, 128), Some(3));
    assert_eq!(skip_item(&[0xa1, 0x01], 0, 128), None);
    assert_eq!(skip_item(&[0xbf, 0x01, 0xff], 0, 128), None);
    assert_eq!(skip_item(&[0xbf, 0x01, 0x02, 0xff], 0, 128), Some(4));
    assert_eq!(skip_item(&[0x9f, 0x01, 0xff], 0, 128), Some(3));
    assert_eq!(skip_item(&[0x5f, 0x41, 0x01, 0x40, 0xff], 0, 128), Some(5));
    assert_eq!(skip_item(&[0x5f, 0x61, 0x61, 0xff], 0, 128), None);
    assert_eq!(skip_item(&[0xc1, 0x00], 0, 128), Some(2));
    assert_eq!(skip_item(&[0xf5], 0, 128), Some(1));
    assert_eq!(skip_item(&[0xf9, 0x3c, 0x00], 0, 128), Some(3));
    assert_eq!(skip_item(&[0xfb, 0, 0, 0, 0, 0, 0, 0, 0], 0, 128), Some(9));
    assert_eq!(skip_item(&[0xff], 0, 128), None);
    assert_eq!(skip_item(&[0x1c], 0, 128), None);
    assert_eq!(skip_item(&[0x81, 0x81, 0x00], 0, 1), None);
    assert_eq!(skip_item(&[0x81, 0x81, 0x00], 0, 2), Some(3));
    assert_eq!(skip_item(&[9, 0x00], 1, 128), Some(2));
}

#[test]
fn heads_and_strings_are_read() {
    let head = read_head(&[0x1b, 0, 0, 0, 0x45, 0xd9, 0x64, 0xb8, 0], 0).unwrap();
    assert_eq!((head.major, head.info, head.arg, head.end), (0, 27, 300_000_000_000, 9));
    let head = read_head(&[0xbf], 0).unwrap();
    assert_eq!((head.major, head.info, head.arg, head.end), (5, 31, 0, 1));
    assert!(read_head(&[0x19, 0x01], 0).is_none());
    assert!(read_head(&[0x1d], 0).is_none());
    assert_eq!(read_string(&[0x42, 7, 8, 9], 0, 2), Some((1, 3)));
    assert_eq!(read_string(&[0x42, 7, 8, 9], 0, 3), None);
    assert_eq!(read_string(&[0x5f, 0xff], 0, 2), None);
    assert_eq!(read_unsigned(&[0x20], 0), None);
}
