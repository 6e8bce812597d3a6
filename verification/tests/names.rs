use w3name::error::{InvalidKey, InvalidName, KeyNotEmbedded};
use w3name::keys::{generate_keypair, Keypair, PublicKey};
use w3name::name::{Name, WritableName};
use w3name::revision::Revision;
use w3name::time::Timestamp;

const KNOWN_NAME: &str = "k51qzi5uqu5dka3tmn6ipgsrq1u2bkuowdwlqcw0vibledypt1y9y5i8v8xwvu";

#[test]
fn generate_and_serialize() {
    let writable = WritableName::new();
    let text = writable.to_name().to_string();
    assert!(text.starts_with('k'));
    assert!(text.starts_with("k51"));
    assert!(text.chars().all(|c| c.is_ascii_digit() || c.is_ascii_lowercase()));
    let parsed = Name::parse(&text).unwrap();
    assert_eq!(parsed, writable.to_name());
    assert_eq!(parsed.public_key().unwrap(), writable.keypair().public().unwrap());
    assert_eq!(writable.to_string(), text);
}

#[test]
fn a_known_name_reads_and_prints_the_same() {
    let name = Name::parse(KNOWN_NAME).unwrap();
    assert_eq!(name.to_string(), KNOWN_NAME);
    let bytes = name.to_bytes();
    assert_eq!(&bytes[..6], &[0x01, 0x72, 0x00, 0x24, 0x08, 0x01]);
    assert_eq!(bytes.len(), 40);
    assert_eq!(Name::from_cid_bytes(&bytes).unwrap(), name);
    let key = name.public_key().unwrap();
    assert_eq!(key.to_protobuf_encoding(), bytes[4..].to_vec());
    assert_eq!(Name::from_bytes(&bytes[4..]).unwrap(), name);
    assert_eq!(Name::from_public_key(&key), name);
}

#[test]
fn upper_case_base36_reads_as_the_same_name() {
    let upper = format!("K{}", KNOWN_NAME[1..].to_uppercase());
    assert_eq!(Name::parse(KNOWN_NAME.to_uppercase().as_str()), Err(InvalidName));
    assert_eq!(Name::parse(&upper), Err(InvalidName));
    let mixed = format!("k{}", KNOWN_NAME[1..].to_uppercase());
    assert_eq!(Name::parse(&mixed).unwrap().to_string(), KNOWN_NAME);
}

#[test]
fn what_is_no_name_is_refused() {
    assert_eq!(Name::parse(""), Err(InvalidName));
    assert_eq!(Name::parse("k"), Err(InvalidName));
    assert_eq!(Name::parse("not a name"), Err(InvalidName));
    assert_eq!(Name::parse("k51!"), Err(InvalidName));
    // the same bytes in another base
    let name = Name::parse(KNOWN_NAME).unwrap();
    let base32 = multibase::encode(multibase::Base::Base32Lower, name.to_bytes());
    assert_eq!(Name::parse(&base32), Err(InvalidName));
    // cut, extended or with another frame
    let bytes = name.to_bytes();
    assert_eq!(Name::from_cid_bytes(&bytes[..bytes.len() - 1]), Err(InvalidName));
    let mut longer = bytes.clone();
    longer.push(0);
    assert_eq!(Name::from_cid_bytes(&longer), Err(InvalidName));
    let mut other_version = bytes.clone();
    other_version[0] = 2;
    assert_eq!(Name::from_cid_bytes(&other_version), Err(InvalidName));
    let mut other_kind = bytes.clone();
    other_kind[1] = 0x70;
    assert_eq!(Name::from_cid_bytes(&other_kind), Err(InvalidName));
    let mut other_hash = bytes.clone();
    other_hash[2] = 0x13;
    assert_eq!(Name::from_cid_bytes(&other_hash), Err(InvalidName));
    assert_eq!(Name::from_cid_bytes(&[]), Err(InvalidName));
    assert_eq!(Name::from_cid_bytes(&[1, 0x72]), Err(InvalidName));
    // an identity hash of what is no key
    assert_eq!(Name::from_cid_bytes(&[1, 0x72, 0, 2, 9, 9]), Err(InvalidName));
    assert_eq!(Name::from_bytes(&[9, 9]), Err(InvalidName));
    assert_eq!(Name::from_bytes(&[]), Err(InvalidName));
}

#[test]
fn a_name_of_a_digest_holds_no_key() {
    let mut bytes = vec![0x01, 0x72, 0x12, 0x20];
    bytes.extend_from_slice(&[7u8; 32]);
    let name = Name::from_cid_bytes(&bytes).unwrap();
    assert_eq!(name.public_key(), Err(KeyNotEmbedded));
    assert_eq!(name.to_bytes(), bytes);
    assert_eq!(Name::parse(&name.to_string()).unwrap(), name);
    let mut short = vec![0x01, 0x72, 0x12, 0x1f];
    short.extend_from_slice(&[7u8; 31]);
    assert_eq!(Name::from_cid_bytes(&short), Err(InvalidName));
}

#[test]
fn names_compare_by_their_bytes() {
    let known = Name::parse(KNOWN_NAME).unwrap();
    let other = WritableName::new().to_name();
    assert!(known.same_as(&known.duplicate()));
    assert!(!known.same_as(&other));
    assert_ne!(known, other);
}

#[test]
fn keypair_goes_through_its_encoding() {
    let writable = WritableName::new();
    let bytes = writable.keypair().to_protobuf_encoding();
    assert_eq!(bytes.len(), 68);
    assert_eq!(&bytes[..4], &[0x08, 0x01, 0x12, 0x40]);
    let decoded = WritableName::decode(&bytes).unwrap();
    assert_eq!(decoded.to_name(), writable.to_name());
    assert_eq!(decoded.keypair().to_protobuf_encoding(), bytes);
    let pair = Keypair::from_protobuf_encoding(&bytes).unwrap();
    assert_eq!(pair.public(), writable.keypair().public());
    let public = pair.public().unwrap();
    assert_eq!(public.to_protobuf_encoding().len(), 36);
    assert_eq!(public.to_protobuf_encoding(), public.as_bytes().to_vec());
    assert_eq!(&public.as_bytes()[..4], &[0x08, 0x01, 0x12, 0x20]);
    assert_eq!(&public.as_bytes()[4..], &bytes[36..]);
}

#[test]
fn what_is_no_key_is_refused() {
    assert!(matches!(WritableName::decode(&[]), Err(InvalidKey)));
    assert!(matches!(WritableName::decode(&[1, 2, 3]), Err(InvalidKey)));
    assert!(matches!(Keypair::from_protobuf_encoding(&[8, 1, 18, 1, 0]), Err(InvalidKey)));
    assert_eq!(PublicKey::from_protobuf_encoding(&[8, 1, 18, 1, 0]), Err(InvalidKey));
    assert_eq!(PublicKey::from_protobuf_encoding(&[]), Err(InvalidKey));
}

#[test]
fn public_key_is_kept_as_it_is_written_anew() {
    let (_, public) = generate_keypair();
    let canonical = public.to_protobuf_encoding();
    // the same key with its two fields in the other order
    let mut swapped = canonical[2..].to_vec();
    swapped.extend_from_slice(&canonical[..2]);
    let decoded = PublicKey::from_protobuf_encoding(&swapped).unwrap();
    assert_eq!(decoded.to_protobuf_encoding(), canonical);
    assert_eq!(decoded, public.duplicate());
    assert_eq!(Name::from_bytes(&swapped).unwrap(), Name::from_public_key(&public));
}

#[test]
fn signatures_are_checked_by_the_key() {
    let (pair, public) = generate_keypair();
    let (_, other) = generate_keypair();
    let signature = pair.sign(b"message").unwrap();
    assert_eq!(signature.len(), 64);
    assert!(public.verify(b"message", &signature));
    assert!(!public.verify(b"massage", &signature));
    assert!(!other.verify(b"message", &signature));
    assert!(!public.verify(b"message", &signature[..63]));
    assert!(!public.verify(b"message", b"message"));
}

#[test]
fn first_revision_has_the_defaults() {
    let name = WritableName::new().to_name();
    let now = Timestamp::new(1_735_787_045, 123_456_789);
    let rev = Revision::v0_at(&name, "value", now);
    assert_eq!(rev.sequence(), 0);
    assert_eq!(rev.ttl(), 300_000_000_000);
    assert_eq!(rev.value(), "value");
    assert_eq!(rev.name(), &name);
    assert_eq!(rev.validity(), &Timestamp::new(1_735_787_045 + 31_536_000, 123_456_789));
    let by_clock = Revision::v0(&name, "value");
    assert_eq!(by_clock.sequence(), 0);
    assert_eq!(by_clock.ttl(), 300_000_000_000);
    let left = by_clock.validity().secs - Timestamp::now().secs;
    assert!(31_535_000 < left && left <= 31_536_000);
}

#[test]
fn increment_takes_the_next_sequence_number() {
    let name = WritableName::new().to_name();
    let rev = Revision::new(&name, "old", Timestamp::new(5, 6), 77, 7);
    let now = Timestamp::new(1_000, 9);
    let next = rev.increment_at("new", now);
    assert_eq!(next.sequence(), 8);
    assert_eq!(next.value(), "new");
    assert_eq!(next.name(), &name);
    assert_eq!(next.ttl(), 77);
    assert_eq!(next.validity(), &Timestamp::new(31_537_000, 9));
    let by_clock = rev.increment("new");
    assert_eq!(by_clock.sequence(), 8);
    assert_eq!(by_clock.value(), "new");
    assert_eq!(by_clock.ttl(), 77);
    assert_eq!(next.increment("newer").sequence(), 9);
    let last = Revision::new(&name, "old", Timestamp::new(5, 6), 77, u64::MAX - 1);
    assert_eq!(last.increment("new").sequence(), u64::MAX);
}

#[test]
fn validity_round_trip() {
    let times = [
        Timestamp::new(0, 0),
        Timestamp::new(1_735_787_045, 123_456_789),
        Timestamp::new(1_735_787_045, 0),
        Timestamp::new(1_735_787_045, 999_999_999),
        Timestamp::new(-1, 1),
        Timestamp::new(253_402_300_799, 999_999_999),
        Timestamp::now(),
        Timestamp::now().plus_seconds(31_536_000),
    ];
    for time in times {
        let text = time.to_rfc3339().unwrap();
        assert_eq!(Timestamp::parse_rfc3339(&text), Some(time), "{}", text);
    }
}

#[test]
fn validity_text_has_nanoseconds_and_z() {
    let time = Timestamp::new(1_735_787_045, 123_456_789);
    assert_eq!(time.to_rfc3339().unwrap(), "2025-01-02T03:04:05.123456789Z");
    assert_eq!(Timestamp::new(0, 0).to_rfc3339().unwrap(), "1970-01-01T00:00:00.000000000Z");
    let name = WritableName::new().to_name();
    let rev = Revision::new(&name, "v", time, 1, 0);
    assert_eq!(rev.validity_string().unwrap(), "2025-01-02T03:04:05.123456789Z");
    assert_eq!(
        Timestamp::parse_rfc3339("2025-01-02T03:04:05.123456789Z"),
        Some(time)
    );
    assert_eq!(
        Timestamp::parse_rfc3339("2025-01-02T03:04:05Z"),
        Some(Timestamp::new(1_735_787_045, 0))
    );
    assert_eq!(Timestamp::parse_rfc3339("2025-01-02 03:04"), None);
    assert_eq!(Timestamp::parse_rfc3339(""), None);
    assert_eq!(Timestamp::new(i64::MAX, 0).to_rfc3339(), None);
    assert_eq!(Timestamp::new(0, 2_000_000_000).to_rfc3339(), None);
}

#[test]
fn later_times_stop_at_the_end_of_the_count() {
    assert_eq!(Timestamp::new(10, 3).plus_seconds(5), Timestamp::new(15, 3));
    assert_eq!(Timestamp::new(-10, 3).plus_seconds(5), Timestamp::new(-5, 3));
    assert_eq!(Timestamp::new(i64::MAX - 2, 3).plus_seconds(5), Timestamp::new(i64::MAX, 3));
    assert_eq!(Timestamp::new(i64::MAX - 5, 3).plus_seconds(5), Timestamp::new(i64::MAX, 3));
}

#[test]
fn generated_pair_decodes_to_its_public_key() {
    for _ in 0..8 {
        let (pair, public) = generate_keypair();
        assert_eq!(pair.public(), Some(public.duplicate()));
        let bytes = pair.to_protobuf_encoding();
        assert_eq!(bytes.len(), 68);
        assert_eq!(&bytes[..4], &[0x08, 0x01, 0x12, 0x40]);
        let again = Keypair::from_protobuf_encoding(&bytes).unwrap();
        assert_eq!(again.public(), Some(public.duplicate()));
        assert_eq!(&bytes[36..], &public.to_protobuf_encoding()[4..]);
    }
    let (first, _) = generate_keypair();
    let (second, _) = generate_keypair();
    assert_ne!(first.to_protobuf_encoding(), second.to_protobuf_encoding());
}

#[test]
fn new_name_is_the_name_of_its_pair() {
    let writable = WritableName::new();
    let key = writable.keypair().public().unwrap();
    assert_eq!(writable.to_name(), Name::from_public_key(&key));
    let again = WritableName::decode(&writable.keypair().to_protobuf_encoding()).unwrap();
    assert_eq!(again.to_name(), writable.to_name());
    assert_eq!(again.to_string(), writable.to_string());
}

#[test]
fn clock_time_can_be_written() {
    for _ in 0..100 {
        let now = Timestamp::now();
        assert!(now.nanos < 1_000_000_000);
        let text = now.to_rfc3339().unwrap();
        assert!(text.ends_with('Z'));
        assert_eq!(Timestamp::parse_rfc3339(&text), Some(now));
    }
}
