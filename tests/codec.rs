use ibc_relay_core::client_update::{
    AnyClientState, ClientUpdateError, LiftClientUpdateHandler, MockUpdateHandler,
};
use ibc_relay_core::header::{
    chain_id_version, AnyHeader, ClientError, ClientType, Header, ProtoAny,
    MOCK_HEADER_TYPE_URL, TENDERMINT_HEADER_TYPE_URL,
};
use ibc_relay_core::identifier::{ConnectionId, IdentifierError};
use ibc_relay_core::upgrade_fields::{ChannelError, Ordering, RawUpgradeFields, UpgradeFields, Version};
use prost::Message;

fn raw(ordering: i32, hops: &[&str], version: &str) -> RawUpgradeFields {
    RawUpgradeFields {
        ordering,
        connection_hops: hops.iter().map(|s| s.to_string()).collect(),
        version: version.to_string(),
    }
}

#[test]
fn upgrade_fields_round_trip() {
    let decoded = UpgradeFields::try_from(raw(2, &["connection-0", "connection-17"], "ics20-1")).unwrap();
    assert_eq!(decoded.ordering(), Ordering::Ordered);
    assert_eq!(decoded.connection_hops().len(), 2);
    assert_eq!(decoded.connection_hops()[1].as_str(), "connection-17");
    assert_eq!(decoded.version().value, "ics20-1");
    let back = decoded.into_raw();
    assert_eq!(back.ordering, 2);
    assert_eq!(back.connection_hops, vec!["connection-0".to_string(), "connection-17".to_string()]);
    assert_eq!(back.version, "ics20-1");
}

#[test]
fn upgrade_fields_dummy_record() {
    let decoded = UpgradeFields::try_from(raw(1, &[], "ics20")).unwrap();
    assert_eq!(decoded.ordering(), Ordering::Unordered);
    assert!(decoded.connection_hops().is_empty());
}

#[test]
fn upgrade_fields_new_keeps_fields() {
    let hop = ConnectionId::parse("connection-3").unwrap();
    let u = UpgradeFields::new(Ordering::NoneUnspecified, vec![hop], Version { value: "v".to_string() });
    let r = u.into_raw();
    assert_eq!(r.ordering, 0);
    assert_eq!(r.connection_hops, vec!["connection-3".to_string()]);
}

#[test]
fn upgrade_fields_reports_every_bad_hop() {
    let r = UpgradeFields::try_from(raw(1, &["short", "connection-1", "bad/connection", "connection-2"], "v"));
    match r {
        Err(ChannelError::ParseConnectionHopsVector(bad)) => {
            assert_eq!(bad.len(), 2);
            assert_eq!(bad[0].0, "short");
            assert_eq!(bad[0].1, IdentifierError::InvalidLength { length: 5, min: 10, max: 64 });
            assert_eq!(bad[1].0, "bad/connection");
            assert_eq!(bad[1].1, IdentifierError::ContainsSeparator);
        }
        _ => panic!("expected a hop error"),
    }
}

#[test]
fn upgrade_fields_unknown_ordering() {
    match UpgradeFields::try_from(raw(7, &["bad"], "v")) {
        Err(ChannelError::UnknownOrderType(7)) => {}
        _ => panic!("expected an ordering error"),
    }
}

#[test]
fn identifier_rules() {
    assert_eq!(ConnectionId::parse("").err(), Some(IdentifierError::Empty));
    assert_eq!(ConnectionId::parse("connection-a$").err(), Some(IdentifierError::InvalidCharacter));
    assert!(ConnectionId::parse("connection-<1>[x]#+._").is_ok());
    assert_eq!(ConnectionId::parse(&"c".repeat(65)).err(), Some(IdentifierError::InvalidLength { length: 65, min: 10, max: 64 }));
    assert!(ConnectionId::parse(&"c".repeat(64)).is_ok());
}

#[test]
fn chain_id_revisions() {
    assert_eq!(chain_id_version("cosmoshub-4"), 4);
    assert_eq!(chain_id_version("osmo-test-15"), 15);
    assert_eq!(chain_id_version("ibc"), 0);
    assert_eq!(chain_id_version("ibc-0"), 0);
    assert_eq!(chain_id_version("ibc--1"), 0);
    assert_eq!(chain_id_version("-1"), 0);
    assert_eq!(chain_id_version("ibc-1x"), 0);
    assert_eq!(chain_id_version("ibc-18446744073709551615"), u64::MAX);
    assert_eq!(chain_id_version("ibc-18446744073709551616"), 0);
}

fn mock_bytes() -> Vec<u8> {
    // height { revision_number: 1, revision_height: 5 }, timestamp: 100
    vec![0x0a, 0x04, 0x08, 0x01, 0x10, 0x05, 0x10, 0x64]
}

fn tendermint_bytes(chain_id: &str, height: i64, seconds: i64, nanos: i32) -> Vec<u8> {
    let header = tendermint_proto::types::Header {
        chain_id: chain_id.to_string(),
        height,
        time: Some(tendermint_proto::google::protobuf::Timestamp { seconds, nanos }),
        ..Default::default()
    };
    let signed = tendermint_proto::types::SignedHeader { header: Some(header), commit: None };
    ibc_proto::ibc::lightclients::tendermint::v1::Header {
        signed_header: Some(signed),
        ..Default::default()
    }
    .encode_to_vec()
}

#[test]
fn mock_header_any_round_trip() {
    let any = ProtoAny { type_url: MOCK_HEADER_TYPE_URL.to_string(), value: mock_bytes() };
    let h = AnyHeader::try_from(any).unwrap();
    assert_eq!(h.client_type(), ClientType::Mock);
    assert_eq!(h.height().revision_number, 1);
    assert_eq!(h.height().revision_height, 5);
    assert_eq!(h.timestamp(), 100);
    assert_eq!(h.encode_to_string(), "0a102f6962632e6d6f636b2e48656164657212080a04080110051064");
    let back = h.into_any();
    assert_eq!(back.type_url, MOCK_HEADER_TYPE_URL);
    assert_eq!(back.value, mock_bytes());
    let again = AnyHeader::try_from(back).unwrap();
    assert_eq!(again.height().revision_height, 5);
}

#[test]
fn tendermint_header_any_round_trip() {
    let value = tendermint_bytes("cosmoshub-4", 12, 3, 7);
    let any = ProtoAny { type_url: TENDERMINT_HEADER_TYPE_URL.to_string(), value: value.clone() };
    let h = AnyHeader::try_from(any).unwrap();
    assert_eq!(h.client_type(), ClientType::Tendermint);
    assert_eq!(h.height().revision_number, 4);
    assert_eq!(h.height().revision_height, 12);
    assert_eq!(h.timestamp(), 3_000_000_007);
    let back = h.into_any();
    assert_eq!(back.type_url, TENDERMINT_HEADER_TYPE_URL);
    assert_eq!(back.value, value);
}

#[test]
fn header_decoding_errors() {
    let unknown = ProtoAny { type_url: "/unknown.Header".to_string(), value: vec![] };
    match AnyHeader::try_from(unknown) {
        Err(ClientError::UnknownHeaderType(u)) => assert_eq!(u, "/unknown.Header"),
        _ => panic!("expected an unknown type"),
    }
    let garbage = ProtoAny { type_url: MOCK_HEADER_TYPE_URL.to_string(), value: vec![0xff, 0xff] };
    assert!(matches!(AnyHeader::try_from(garbage), Err(ClientError::InvalidRawHeader)));
    let no_height = ProtoAny { type_url: MOCK_HEADER_TYPE_URL.to_string(), value: vec![0x10, 0x01] };
    assert!(matches!(AnyHeader::try_from(no_height), Err(ClientError::MissingHeight)));
    let zero = ProtoAny { type_url: TENDERMINT_HEADER_TYPE_URL.to_string(), value: tendermint_bytes("a-1", 0, 1, 0) };
    assert!(matches!(AnyHeader::try_from(zero), Err(ClientError::InvalidHeight)));
    let bad_time = ProtoAny { type_url: TENDERMINT_HEADER_TYPE_URL.to_string(), value: tendermint_bytes("a-1", 3, -1, 0) };
    assert!(matches!(AnyHeader::try_from(bad_time), Err(ClientError::InvalidTimestamp)));
    let empty = ProtoAny { type_url: TENDERMINT_HEADER_TYPE_URL.to_string(), value: vec![] };
    assert!(matches!(AnyHeader::try_from(empty), Err(ClientError::InvalidRawHeader)));
}

#[test]
fn lift_refuses_other_client_types() {
    let lift = LiftClientUpdateHandler::new(ClientType::Tendermint, MockUpdateHandler);
    let header = AnyHeader::try_from(ProtoAny { type_url: MOCK_HEADER_TYPE_URL.to_string(), value: mock_bytes() }).unwrap();
    let mock_state = AnyClientState { client_type: ClientType::Mock, value: vec![1] };
    match lift.check_header_and_update_state(&"07-tendermint-0".to_string(), &mock_state, &header) {
        Err(ClientUpdateError::MismatchClientHeaderFormat(m)) => assert_eq!(m.expected_client_type, ClientType::Tendermint),
        _ => panic!("expected a mismatch"),
    }
    let tm_state = AnyClientState { client_type: ClientType::Tendermint, value: vec![1] };
    assert!(matches!(
        lift.check_header_and_update_state(&"07-tendermint-0".to_string(), &tm_state, &header),
        Err(ClientUpdateError::MismatchClientHeaderFormat(_))
    ));
    let mock_lift = LiftClientUpdateHandler::new(ClientType::Mock, MockUpdateHandler);
    let (s, c) = mock_lift.check_header_and_update_state(&"m".to_string(), &mock_state, &header).ok().unwrap();
    assert_eq!(s.client_type, ClientType::Mock);
    assert_eq!(s.value, mock_bytes());
    assert_eq!(c.client_type, ClientType::Mock);
    assert_eq!(c.value, mock_bytes());
}
