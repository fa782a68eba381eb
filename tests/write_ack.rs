use ibc_relay_core::event_source::{queries, EventQuery};
use ibc_relay_core::events::{Height, IbcEvent};
use ibc_relay_core::write_ack::{
    decode_tx_events, parse_timeout_height, parse_u64, try_extract_write_acknowledgement_event, AbciEvent,
    WriteAckError, WriteAcknowledgementEvent,
};

fn attr(k: &str, v: &str) -> (String, String) {
    (k.to_string(), v.to_string())
}

fn write_ack_event() -> AbciEvent {
    AbciEvent {
        type_str: "write_acknowledgement".to_string(),
        attributes: vec![
            attr("packet_data", "{\"amount\":\"5\"}"),
            attr("packet_timeout_height", "1-300"),
            attr("packet_timeout_timestamp", "0"),
            attr("packet_sequence", "42"),
            attr("packet_src_port", "transfer"),
            attr("packet_src_channel", "channel-0"),
            attr("packet_dst_port", "transfer"),
            attr("packet_dst_channel", "channel-7"),
            attr("packet_ack", "{\"result\":\"AQ==\"}"),
            attr("packet_connection", "connection-0"),
        ],
    }
}

#[test]
fn write_ack_is_read_from_attributes() {
    let w = WriteAcknowledgementEvent::try_from(write_ack_event()).unwrap();
    assert_eq!(w.packet.sequence, 42);
    assert_eq!(w.packet.source_channel, "channel-0");
    assert_eq!(w.packet.destination_channel, "channel-7");
    assert_eq!(w.packet.timeout_height, Height::new(1, 300));
    assert_eq!(w.packet.timeout_timestamp, 0);
    assert_eq!(w.packet.data, b"{\"amount\":\"5\"}".to_vec());
    assert_eq!(w.ack, b"{\"result\":\"AQ==\"}".to_vec());
}

#[test]
fn write_ack_wrong_event_type() {
    let mut e = write_ack_event();
    e.type_str = "send_packet".to_string();
    match WriteAcknowledgementEvent::try_from(e.clone()) {
        Err(WriteAckError::MismatchEventType { expected, actual }) => {
            assert_eq!(expected, "write_acknowledgement");
            assert_eq!(actual, "send_packet");
        }
        _ => panic!("expected a type mismatch"),
    }
    assert!(try_extract_write_acknowledgement_event(e).is_none());
}

#[test]
fn write_ack_bad_sequence() {
    let mut e = write_ack_event();
    e.attributes.push(attr("packet_sequence", "4x"));
    match WriteAcknowledgementEvent::try_from(e) {
        Err(WriteAckError::InvalidAttribute(k)) => assert_eq!(k, "packet_sequence"),
        _ => panic!("expected an attribute error"),
    }
}

#[test]
fn write_ack_extracted() {
    let w = try_extract_write_acknowledgement_event(write_ack_event()).unwrap();
    assert_eq!(w.packet.sequence, 42);
}

#[test]
fn numbers_parse_like_std() {
    for s in ["0", "+7", "007", "18446744073709551615", "", "+", "-1", "18446744073709551616", "1 "] {
        assert_eq!(parse_u64(s), s.parse::<u64>().ok(), "{s}");
    }
}

#[test]
fn timeout_heights() {
    assert_eq!(parse_timeout_height("1-300"), Some(Height::new(1, 300)));
    assert_eq!(parse_timeout_height("0-0"), Some(Height::new(0, 0)));
    assert_eq!(parse_timeout_height("5-0"), Some(Height::new(0, 0)));
    assert_eq!(parse_timeout_height("1-2-3"), None);
    assert_eq!(parse_timeout_height("12"), None);
    assert_eq!(parse_timeout_height("a-1"), None);
}

#[test]
fn default_queries() {
    assert_eq!(queries(), vec![EventQuery::NewBlock, EventQuery::Tx]);
}

#[test]
fn transaction_events_decode() {
    let mut send = write_ack_event();
    send.type_str = "send_packet".to_string();
    let other = AbciEvent { type_str: "message".to_string(), attributes: vec![attr("module", "ibc")] };
    let events = decode_tx_events(Height::new(0, 9), vec![send, other, write_ack_event()]);
    assert_eq!(events.len(), 2);
    assert!(matches!(&events[0].event, IbcEvent::SendPacket(p) if p.sequence == 42));
    assert!(matches!(&events[1].event, IbcEvent::WriteAcknowledgement(p, _) if p.sequence == 42));
    assert_eq!(events[1].height, Height::new(0, 9));
}

#[test]
fn packet_without_timeout_is_not_decoded() {
    let mut e = write_ack_event();
    e.attributes[1] = attr("packet_timeout_height", "0-0");
    assert!(decode_tx_events(Height::new(0, 9), vec![e.clone()]).is_empty());
    // the acknowledgement itself is still read
    let w = WriteAcknowledgementEvent::try_from(e).unwrap();
    assert!(!w.packet.has_timeout());
    let mut timed = write_ack_event();
    timed.attributes[1] = attr("packet_timeout_height", "0-0");
    timed.attributes[2] = attr("packet_timeout_timestamp", "1700000000");
    assert_eq!(decode_tx_events(Height::new(0, 9), vec![timed]).len(), 1);
}
