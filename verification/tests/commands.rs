use w3name::cli::{
    after_gateway, after_resolve, default_key_file, gateway_accept, gateway_url, is_404, is_500,
    parse_record, resolve_report, revision_from_gateway, CliError, PublishStep, ResolveReport,
};
use w3name::client::{
    check_status, default_endpoint, encode_record, publish_request, revision_from_record,
    revision_from_record_bytes, APIError, ClientError,
};
use w3name::error::IpnsError;
use w3name::ipns::{
    deserialize_ipns_entry, revision_from_ipns_entry, revision_to_ipns_entry,
    serialize_ipns_entry,
};
use w3name::name::{Name, WritableName};
use w3name::revision::Revision;
use w3name::time::Timestamp;

fn api_error(status_code: u16) -> ClientError {
    ClientError::Api(APIError { status_code, message: "said the service".to_string() })
}

#[test]
fn resolve_of_a_name_without_record_says_so() {
    let name = "k51qzi5uqu5dka3tmn6ipgsrq1u2bkuowdwlqcw0vibledypt1y9y5i8v8xwvu";
    let report = resolve_report(name, &Err(api_error(404)));
    assert_eq!(
        report,
        ResolveReport::NoRecord(
            "no record found for key k51qzi5uqu5dka3tmn6ipgsrq1u2bkuowdwlqcw0vibledypt1y9y5i8v8xwvu"
                .to_string()
        )
    );
}

#[test]
fn resolve_reports_value_or_failure() {
    let name = WritableName::new().to_name();
    let rev = Revision::new(&name, "/ipfs/x", Timestamp::new(5, 6), 77, 7);
    assert_eq!(
        resolve_report("k51", &Ok(rev)),
        ResolveReport::Value("/ipfs/x".to_string())
    );
    assert_eq!(
        resolve_report("k51", &Err(api_error(500))),
        ResolveReport::Failed(CliError::Resolve)
    );
    assert_eq!(
        resolve_report("k51", &Err(ClientError::Transport)),
        ResolveReport::Failed(CliError::Resolve)
    );
    assert_eq!(
        resolve_report("k51", &Err(ClientError::Ipns(IpnsError::Decode))),
        ResolveReport::Failed(CliError::Resolve)
    );
}

#[test]
fn statuses_are_told_apart() {
    assert!(is_404(&api_error(404)));
    assert!(!is_404(&api_error(500)));
    assert!(!is_404(&ClientError::Transport));
    assert!(!is_404(&ClientError::Ipns(IpnsError::Cbor)));
    assert!(is_500(&api_error(500)));
    assert!(!is_500(&api_error(404)));
    assert!(!is_500(&ClientError::Transport));
    assert_eq!(check_status(200, "ok".to_string()), Ok(()));
    assert_eq!(check_status(299, "ok".to_string()), Ok(()));
    assert_eq!(
        check_status(404, "said the service".to_string()),
        Err(api_error(404))
    );
    assert_eq!(check_status(199, "said the service".to_string()), Err(api_error(199)));
    assert_eq!(check_status(300, "said the service".to_string()), Err(api_error(300)));
}

#[test]
fn publish_after_resolve_increments_sequence() {
    let writable = WritableName::new();
    let name = writable.to_name();
    // the service hands out a record at sequence 7
    let served = Revision::new(&name, "/ipfs/old", Timestamp::new(1_893_553_445, 0), 300, 7);
    let record = encode_record(&served, writable.keypair()).unwrap();
    let answer = revision_from_record(&record, &name);
    assert_eq!(answer.as_ref().unwrap().sequence(), 7);
    // the command decides what to publish
    let now = Timestamp::new(1_735_787_045, 0);
    let next = match after_resolve(&name, "/ipfs/new", &answer, now) {
        PublishStep::Publish(revision) => revision,
        other => panic!("{:?}", other),
    };
    let request = publish_request(&writable, &next).unwrap();
    assert_eq!(request.name, name.to_string());
    // what is sent holds sequence 8 and the new value
    let sent = revision_from_record(&request.record, &name).unwrap();
    assert_eq!(sent.sequence(), 8);
    assert_eq!(sent.value(), "/ipfs/new");
    assert_eq!(sent, next);
}

#[test]
fn publish_starts_anew_where_there_is_no_record() {
    let name = WritableName::new().to_name();
    let now = Timestamp::new(1_735_787_045, 5);
    let first = Revision::v0_at(&name, "v", now);
    assert_eq!(
        after_resolve(&name, "v", &Err(api_error(404)), now),
        PublishStep::Publish(first.clone())
    );
    assert_eq!(after_gateway(&name, "v", &None, now), PublishStep::Publish(first));
}

#[test]
fn publish_asks_the_gateway_after_other_failures() {
    let name = WritableName::new().to_name();
    let now = Timestamp::new(1_735_787_045, 5);
    assert_eq!(after_resolve(&name, "v", &Err(api_error(500)), now), PublishStep::AskGateway);
    assert_eq!(after_resolve(&name, "v", &Err(api_error(403)), now), PublishStep::AskGateway);
    assert_eq!(
        after_resolve(&name, "v", &Err(ClientError::Transport), now),
        PublishStep::AskGateway
    );
    assert_eq!(
        after_resolve(&name, "v", &Err(ClientError::Ipns(IpnsError::Decode)), now),
        PublishStep::AskGateway
    );
}

#[test]
fn publish_follows_what_the_gateway_found() {
    let name = WritableName::new().to_name();
    let now = Timestamp::new(1_735_787_045, 5);
    let found = Revision::new(&name, "old", Timestamp::new(5, 6), 77, 41);
    let expected = found.increment_at("new", now);
    assert_eq!(expected.sequence(), 42);
    assert_eq!(
        after_gateway(&name, "new", &Some(found), now),
        PublishStep::Publish(expected)
    );
}

#[test]
fn publish_gives_up_at_the_last_sequence_number() {
    let name = WritableName::new().to_name();
    let now = Timestamp::new(1_735_787_045, 5);
    let last = Revision::new(&name, "old", Timestamp::new(5, 6), 77, u64::MAX);
    assert_eq!(
        after_resolve(&name, "new", &Ok(last.clone()), now),
        PublishStep::Fail(CliError::Publish)
    );
    assert_eq!(
        after_gateway(&name, "new", &Some(last), now),
        PublishStep::Fail(CliError::Publish)
    );
}

#[test]
fn gateway_is_asked_at_its_address() {
    assert_eq!(gateway_url("k51abc"), "https://trustless-gateway.link/ipns/k51abc");
    assert_eq!(gateway_accept(), "application/vnd.ipfs.ipns-record");
    assert_eq!(default_endpoint(), "https://name.web3.storage/");
    assert_eq!(default_key_file("k51abc"), "k51abc.key");
}

#[test]
fn failures_have_their_messages() {
    assert_eq!(CliError::Resolve.message(), "failed to resolve name");
    assert_eq!(CliError::Publish.message(), "failed to publish value");
    assert_eq!(CliError::Create.message(), "failed to create new keypair");
    assert_eq!(CliError::Parse.message(), "failed to parse record");
    assert_eq!(CliError::Other.message(), "operation failed");
}

#[test]
fn gateway_record_is_checked_against_the_name() {
    let writable = WritableName::new();
    let name = writable.to_name();
    let rev = Revision::new(&name, "/ipfs/x", Timestamp::new(1_893_553_445, 0), 300, 7);
    let entry = revision_to_ipns_entry(&rev, writable.keypair()).unwrap();
    let bytes = serialize_ipns_entry(&entry).unwrap();
    assert_eq!(revision_from_gateway(&bytes, &name.to_string()), Ok(rev.clone()));
    assert_eq!(revision_from_record_bytes(&bytes, &name), Ok(rev));
    let other = WritableName::new().to_name();
    assert_eq!(
        revision_from_gateway(&bytes, &other.to_string()),
        Err(IpnsError::InvalidV2Signature)
    );
    assert_eq!(revision_from_gateway(&bytes, "no name"), Err(IpnsError::InvalidName));
    assert_eq!(
        revision_from_gateway(&[0x0a], &name.to_string()),
        Err(IpnsError::Decode)
    );
    assert_eq!(revision_from_gateway(&[0x0a], "no name"), Err(IpnsError::Decode));
    let mut digest = vec![0x01, 0x72, 0x12, 0x20];
    digest.extend_from_slice(&[7u8; 32]);
    let keyless = Name::from_cid_bytes(&digest).unwrap();
    assert_eq!(revision_from_record_bytes(&bytes, &keyless), Err(IpnsError::KeyNotEmbedded));
}

#[test]
fn record_travels_as_base64() {
    let writable = WritableName::new();
    let name = writable.to_name();
    let rev = Revision::new(&name, "/ipfs/x", Timestamp::new(1_893_553_445, 0), 300, 7);
    let record = encode_record(&rev, writable.keypair()).unwrap();
    let bytes = base64::decode(&record).unwrap();
    let entry = deserialize_ipns_entry(&bytes).unwrap();
    assert_eq!(revision_from_ipns_entry(&entry, &name), Ok(rev.clone()));
    assert_eq!(base64::encode(&bytes), record);
    assert_eq!(revision_from_record(&record, &name), Ok(rev));
    assert_eq!(revision_from_record("not base64!", &name), Err(ClientError::Transport));
    assert_eq!(
        revision_from_record("Cg==", &name),
        Err(ClientError::Ipns(IpnsError::Decode))
    );
    let other = WritableName::new().to_name();
    assert_eq!(
        revision_from_record(&record, &other),
        Err(ClientError::Ipns(IpnsError::InvalidV2Signature))
    );
}

#[test]
fn unwritable_validity_makes_no_request() {
    let writable = WritableName::new();
    let rev = Revision::v0_with_validity(&writable.to_name(), "v", Timestamp::new(i64::MAX, 0), 1);
    assert_eq!(
        publish_request(&writable, &rev),
        Err(ClientError::Ipns(IpnsError::InvalidValidity))
    );
    assert_eq!(encode_record(&rev, writable.keypair()), Err(IpnsError::InvalidValidity));
}

#[test]
fn parse_reads_a_record_that_carries_its_key() {
    let writable = WritableName::new();
    let name = writable.to_name();
    let rev = Revision::new(&name, "/ipfs/x", Timestamp::new(1_893_553_445, 0), 300, 7);
    let mut entry = revision_to_ipns_entry(&rev, writable.keypair()).unwrap();
    // without the key the record cannot be judged
    let without = base64::encode(serialize_ipns_entry(&entry).unwrap());
    assert_eq!(parse_record(&without), Err(IpnsError::InvalidName));
    entry.pub_key = writable.keypair().public().unwrap().to_protobuf_encoding();
    let with = base64::encode(serialize_ipns_entry(&entry).unwrap());
    assert_eq!(parse_record(&with), Ok(rev));
    // the key of another name
    entry.pub_key = WritableName::new().keypair().public().unwrap().to_protobuf_encoding();
    let foreign = base64::encode(serialize_ipns_entry(&entry).unwrap());
    assert_eq!(parse_record(&foreign), Err(IpnsError::InvalidV2Signature));
    assert_eq!(parse_record("%%%"), Err(IpnsError::Decode));
    assert_eq!(parse_record("Cg=="), Err(IpnsError::Decode));
}
