use ibc_relay_core::batcher::{collect_messages, BatchQueue, plan_batch, route_events, should_flush, BatchConfig, UnitSize};
use ibc_relay_core::events::{ChainId, Height, Packet};
use ibc_relay_core::packet_relay::{
    next_height, PacketRelay, RelayAction, RelayOutcome, RelayResponse, RelayStage, Target,
};
use ibc_relay_core::relay::{HasRelayPacketFields, Relay};
use ibc_relay_core::sender::{
    flatten_events, send_message, send_messages_checked, send_messages_fixed, IbcMessageSender,
    IbcMessageSenderExt,
    InjectMismatchIbcEventsCountError, RelayError,
};

fn h(n: u64) -> Height {
    Height::new(0, n)
}

fn config(count: usize, size: usize) -> BatchConfig {
    BatchConfig { max_message_count: count, max_tx_size: size, max_delay_ms: 50 }
}

#[test]
fn batcher_coalesces_two_producers() {
    let units = vec![
        UnitSize { message_count: 2, byte_size: 100 },
        UnitSize { message_count: 1, byte_size: 50 },
    ];
    assert_eq!(plan_batch(&units, &config(4, 1 << 20)), 2);
    let (msgs, counts) = collect_messages(vec![vec!["m1", "m2"], vec!["m3"]]);
    assert_eq!(msgs, vec!["m1", "m2", "m3"]);
    assert_eq!(counts, vec![2, 1]);
    let events = vec![vec!["e1"], vec!["e2a", "e2b"], vec!["e3"]];
    let routed = route_events(events, &counts).unwrap();
    assert_eq!(routed[0], vec![vec!["e1"], vec!["e2a", "e2b"]]);
    assert_eq!(routed[1], vec![vec!["e3"]]);
}

#[test]
fn batcher_mismatch_count_fails_every_unit() {
    let counts = vec![1, 1, 1];
    let r = route_events(vec![vec![1u8], vec![2u8]], &counts);
    assert_eq!(r, Err(RelayError::MismatchIbcEventsCount { expected: 3, actual: 2 }));
}

#[test]
fn batcher_same_producer_order_kept() {
    let (_, counts) = collect_messages(vec![vec![1, 2], vec![3], vec![4, 5, 6]]);
    let routed = route_events(vec![vec![10], vec![20], vec![30], vec![40], vec![50], vec![60]], &counts).unwrap();
    assert_eq!(routed[0], vec![vec![10], vec![20]]);
    assert_eq!(routed[2], vec![vec![40], vec![50], vec![60]]);
}

#[test]
fn batcher_respects_bounds() {
    let units = vec![
        UnitSize { message_count: 3, byte_size: 10 },
        UnitSize { message_count: 2, byte_size: 10 },
        UnitSize { message_count: 1, byte_size: 10 },
    ];
    assert_eq!(plan_batch(&units, &config(4, 1000)), 1);
    assert_eq!(plan_batch(&units, &config(6, 1000)), 3);
    assert_eq!(plan_batch(&units, &config(10, 25)), 2);
    assert_eq!(plan_batch(&vec![], &config(10, 25)), 0);
}

#[test]
fn batcher_sends_oversize_unit_alone() {
    let units = vec![UnitSize { message_count: 1, byte_size: 5000 }, UnitSize { message_count: 1, byte_size: 1 }];
    assert_eq!(plan_batch(&units, &config(10, 100)), 1);
}

#[test]
fn batcher_flush_rules() {
    let one = vec![UnitSize { message_count: 1, byte_size: 1 }];
    assert!(!should_flush(&one, 10, &config(4, 100)));
    assert!(should_flush(&one, 50, &config(4, 100)));
    assert!(!should_flush(&vec![], 500, &config(4, 100)));
    let full = vec![UnitSize { message_count: 3, byte_size: 1 }, UnitSize { message_count: 3, byte_size: 1 }];
    assert!(should_flush(&full, 0, &config(4, 100)));
}

struct FixedSender {
    lists: usize,
}

impl IbcMessageSender<u8, u8> for FixedSender {
    fn send_messages(&self, _messages: Vec<u8>) -> Result<Vec<Vec<u8>>, RelayError> {
        Ok((0..self.lists).map(|i| vec![i as u8]).collect())
    }
}

#[test]
fn sender_checks_event_count() {
    let good = FixedSender { lists: 2 };
    assert_eq!(send_messages_checked(&good, vec![1, 2]).unwrap().len(), 2);
    let bad = FixedSender { lists: 1 };
    assert_eq!(
        send_messages_checked(&bad, vec![1, 2]),
        Err(RelayError::MismatchIbcEventsCount { expected: 2, actual: 1 })
    );
    assert_eq!(send_messages_fixed::<u8>(3, Ok(vec![vec![], vec![]])), Err(RelayError::mismatch_ibc_events_count_error(3, 2)));
    let err = RelayError::Chain { transient: true, reason: "timeout".to_string() };
    assert_eq!(send_messages_fixed::<u8>(1, Err(err.clone())), Err(err));
}

#[test]
fn send_message_flattens() {
    assert_eq!(send_message(Ok(vec![vec![1, 2]])), Ok(vec![1, 2]));
    assert_eq!(
        send_message(Ok(vec![vec![1, 2], vec![3]])),
        Err(RelayError::MismatchIbcEventsCount { expected: 1, actual: 2 })
    );
    assert_eq!(
        send_message::<u8>(Ok(vec![])),
        Err(RelayError::MismatchIbcEventsCount { expected: 1, actual: 0 })
    );
    assert_eq!(flatten_events(vec![vec![1u8], vec![2, 3]]), vec![1, 2, 3]);
    assert_eq!(FixedSender { lists: 1 }.send_message(7), Ok(vec![0]));
    assert!(FixedSender { lists: 2 }.send_messages_fixed(vec![1]).is_err());
}

fn run_to_end(mut s: PacketRelay, responses: &[RelayResponse]) -> (PacketRelay, Vec<RelayAction>) {
    let mut actions = vec![];
    for r in responses {
        actions.push(s.action());
        s = s.step(*r);
    }
    actions.push(s.action());
    (s, actions)
}

#[test]
fn packet_happy_path() {
    let s = PacketRelay::new(h(100), h(0), 0, 3);
    let (end, actions) = run_to_end(
        s,
        &[
            RelayResponse::Filter(true),
            RelayResponse::Received(false),
            RelayResponse::DestinationStatus { height: h(150), timestamp: 10 },
            RelayResponse::ClientUpdated,
            RelayResponse::RecvSubmitted(Some(h(200))),
            RelayResponse::ClientUpdated,
            RelayResponse::Submitted,
        ],
    );
    assert_eq!(
        actions,
        vec![
            RelayAction::CheckFilter,
            RelayAction::QueryReceived,
            RelayAction::QueryDestinationStatus,
            RelayAction::UpdateClient { target: Target::Destination, height: h(101) },
            RelayAction::SubmitRecv(h(101)),
            RelayAction::UpdateClient { target: Target::Source, height: h(201) },
            RelayAction::SubmitAck(h(201)),
            RelayAction::Finish(RelayOutcome::Acked),
        ]
    );
    assert_eq!(end.stage, RelayStage::Done(RelayOutcome::Acked));
}

#[test]
fn packet_timeout_path() {
    let s = PacketRelay::new(h(10), h(50), 0, 3);
    let (end, actions) = run_to_end(
        s,
        &[
            RelayResponse::Filter(true),
            RelayResponse::Received(false),
            RelayResponse::DestinationStatus { height: h(60), timestamp: 0 },
            RelayResponse::ClientUpdated,
            RelayResponse::Submitted,
        ],
    );
    assert_eq!(actions[3], RelayAction::UpdateClient { target: Target::Source, height: h(61) });
    assert_eq!(actions[4], RelayAction::SubmitTimeout(h(61)));
    assert!(!actions.iter().any(|a| matches!(a, RelayAction::SubmitRecv(_))));
    assert_eq!(end.stage, RelayStage::Done(RelayOutcome::TimedOut));
}

#[test]
fn packet_received_wins_over_timeout() {
    let s = PacketRelay::new(h(10), h(50), 0, 3);
    let (end, actions) = run_to_end(
        s,
        &[
            RelayResponse::Filter(true),
            RelayResponse::Received(true),
            RelayResponse::WriteAck(Some(h(70))),
            RelayResponse::ClientUpdated,
            RelayResponse::Submitted,
        ],
    );
    assert_eq!(actions[2], RelayAction::QueryWriteAck);
    assert_eq!(actions[4], RelayAction::SubmitAck(h(71)));
    assert_eq!(end.stage, RelayStage::Done(RelayOutcome::Acked));
}

#[test]
fn packet_filtered_out() {
    let s = PacketRelay::new(h(1), h(0), 0, 3);
    let (end, _) = run_to_end(s, &[RelayResponse::Filter(false)]);
    assert_eq!(end.stage, RelayStage::Done(RelayOutcome::FilteredOut));
}

#[test]
fn packet_transient_errors_exhaust_budget() {
    let s = PacketRelay::new(h(1), h(0), 0, 2);
    let s = s.step(RelayResponse::TransientError);
    assert_eq!(s.stage, RelayStage::Filter);
    assert_eq!(s.retries_left, 1);
    let s = s.step(RelayResponse::TransientError).step(RelayResponse::TransientError);
    assert_eq!(s.stage, RelayStage::Done(RelayOutcome::Failed));
    let s = PacketRelay::new(h(1), h(0), 0, 2).step(RelayResponse::PermanentError);
    assert_eq!(s.stage, RelayStage::Done(RelayOutcome::Failed));
    assert_eq!(s.step(RelayResponse::Filter(true)), s);
}

#[test]
fn packet_timestamp_timeout() {
    let s = PacketRelay::new(h(1), h(0), 100, 2);
    assert!(s.timed_out(h(5), 101));
    assert!(!s.timed_out(h(5), 100));
    assert!(!s.timed_out(h(u64::MAX), 0));
    assert_eq!(next_height(h(u64::MAX)), None);
    assert_eq!(next_height(Height::new(2, 7)), Some(Height::new(2, 8)));
}

#[test]
fn relay_targets() {
    let r = Relay::new(
        ChainId::new("a".to_string()),
        ChainId::new("b".to_string()),
        "client-on-a".to_string(),
        "client-on-b".to_string(),
    )
    .ok()
    .unwrap();
    assert_eq!(r.target_chain(Target::Source).id, "a");
    assert_eq!(r.counterparty_chain(Target::Source).id, "b");
    assert_eq!(r.target_client_id(Target::Destination), "client-on-b");
    assert_eq!(r.counterparty_client_id(Target::Destination), "client-on-a");
    assert!(Relay::new(ChainId::new("a".to_string()), ChainId::new("a".to_string()), String::new(), String::new()).is_err());
    let p = Packet {
        sequence: 42,
        source_port: "transfer".to_string(),
        source_channel: "channel-0".to_string(),
        destination_port: "transfer".to_string(),
        destination_channel: "channel-5".to_string(),
        data: vec![],
        timeout_height: Height::new(0, 0),
        timeout_timestamp: 9,
    };
    assert_eq!(Relay::packet_sequence(&p), 42);
    assert_eq!(Relay::packet_dst_channel_id(&p), "channel-5");
    assert_eq!(Relay::packet_timeout_height(&p), None);
    assert_eq!(Relay::packet_timeout_timestamp(&p), 9);
}

#[test]
fn batch_queue_takes_fifo_prefix() {
    let mut q: BatchQueue<&str> = BatchQueue::new();
    q.submit(vec!["m1", "m2"], 10);
    q.submit(vec!["m3"], 10);
    q.submit(vec!["m4", "m5", "m6"], 10);
    let cfg = config(4, 1000);
    assert!(q.should_flush(0, &cfg));
    let (msgs, counts) = q.take_batch(&cfg);
    assert_eq!(msgs, vec!["m1", "m2", "m3"]);
    assert_eq!(counts, vec![2, 1]);
    assert_eq!(q.len(), 1);
    assert!(!q.should_flush(0, &config(4, 1000)));
    let (msgs, counts) = q.take_batch(&cfg);
    assert_eq!(msgs, vec!["m4", "m5", "m6"]);
    assert_eq!(counts, vec![3]);
    assert_eq!(q.len(), 0);
    let (msgs, counts) = q.take_batch(&cfg);
    assert!(msgs.is_empty() && counts.is_empty());
}
