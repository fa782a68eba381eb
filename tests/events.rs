use std::sync::Arc;

use ibc_relay_core::backoff::{Backoff, RetryDecision};
use ibc_relay_core::bus::EventBus;
use ibc_relay_core::event_source::{CommandOutcome, EventSourceCmd, EventSourceCore, EventSourceError, Next};
use ibc_relay_core::events::{
    collect_events, group_by_height, sort_events, stream_batches, ChainId, Height, IbcEvent,
    IbcEventWithHeight, Packet,
};

fn h(n: u64) -> Height {
    Height::new(0, n)
}

fn packet(seq: u64) -> Packet {
    Packet {
        sequence: seq,
        source_port: "transfer".to_string(),
        source_channel: "channel-0".to_string(),
        destination_port: "transfer".to_string(),
        destination_channel: "channel-1".to_string(),
        data: vec![1, 2, 3],
        timeout_height: Height::new(0, 0),
        timeout_timestamp: 0,
    }
}

fn ev(event: IbcEvent, height: u64) -> IbcEventWithHeight {
    IbcEventWithHeight { event, height: h(height) }
}

fn tx(seq: u64, height: u64) -> IbcEventWithHeight {
    ev(IbcEvent::SendPacket(packet(seq)), height)
}

fn seq_of(e: &IbcEventWithHeight) -> Option<u64> {
    match &e.event {
        IbcEvent::SendPacket(p) => Some(p.sequence),
        _ => None,
    }
}

#[test]
fn group_and_order_two_heights() {
    let events = vec![
        ev(IbcEvent::NewBlock, 5),
        tx(1, 5),
        tx(2, 5),
        tx(3, 6),
        ev(IbcEvent::NewBlock, 6),
    ];
    let chain = ChainId::new("chain-a".to_string());
    let batches = stream_batches(&chain, events, 0);
    assert_eq!(batches.len(), 2);
    assert_eq!(batches[0].height, h(5));
    assert_eq!(batches[0].events.len(), 3);
    assert!(batches[0].events[0].event.is_new_block());
    assert_eq!(seq_of(&batches[0].events[1]), Some(1));
    assert_eq!(seq_of(&batches[0].events[2]), Some(2));
    assert_eq!(batches[1].height, h(6));
    assert_eq!(batches[1].events.len(), 2);
    assert!(batches[1].events[0].event.is_new_block());
    assert_eq!(seq_of(&batches[1].events[1]), Some(3));
    for b in &batches {
        assert_eq!(b.chain_id.id, "chain-a");
    }
    assert_ne!(batches[0].tracking_id, batches[1].tracking_id);
}

#[test]
fn undecodable_event_is_dropped() {
    let mut events = collect_events(Some(vec![tx(9, 7)]));
    events.extend(collect_events(None));
    let chain = ChainId::new("chain-a".to_string());
    let batches = stream_batches(&chain, events, 10);
    assert_eq!(batches.len(), 1);
    assert_eq!(batches[0].height, h(7));
    assert_eq!(batches[0].events.len(), 1);
    assert_eq!(seq_of(&batches[0].events[0]), Some(9));
    assert_eq!(batches[0].tracking_id.value, 10);
}

#[test]
fn empty_stream_gives_no_batch() {
    let chain = ChainId::new("c".to_string());
    assert!(stream_batches(&chain, vec![], 0).is_empty());
    assert!(group_by_height(vec![]).is_empty());
}

#[test]
fn sort_is_stable_and_puts_new_block_first() {
    let sorted = sort_events(vec![tx(1, 3), tx(2, 3), ev(IbcEvent::NewBlock, 3), tx(3, 3)]);
    assert!(sorted[0].event.is_new_block());
    assert_eq!(seq_of(&sorted[1]), Some(1));
    assert_eq!(seq_of(&sorted[2]), Some(2));
    assert_eq!(seq_of(&sorted[3]), Some(3));
}

#[test]
fn grouping_splits_only_on_height_change() {
    let groups = group_by_height(vec![tx(1, 1), tx(2, 2), tx(3, 2), tx(4, 1)]);
    let sizes: Vec<usize> = groups.iter().map(|g| g.len()).collect();
    assert_eq!(sizes, vec![1, 2, 1]);
}

#[test]
fn fibonacci_delays() {
    let mut b = Backoff::new(1000, u64::MAX, u64::MAX);
    let d: Vec<u64> = (0..6).map(|_| b.next_delay().unwrap()).collect();
    assert_eq!(d, vec![1000, 1000, 2000, 3000, 5000, 8000]);
}

#[test]
fn fibonacci_saturates_then_total_cap_ends() {
    let mut b = Backoff::new(u64::MAX, u64::MAX, u64::MAX);
    assert_eq!(b.next_delay(), Some(u64::MAX));
    assert_eq!(b.next_delay(), None);
    assert_eq!(b.next_delay(), None);
}

#[test]
fn reconnect_backoff_is_bounded() {
    let mut b = Backoff::reconnect_default();
    let mut total: u64 = 0;
    let mut n = 0;
    while let Some(d) = b.next_delay() {
        assert!(d <= 60_000);
        total += d;
        n += 1;
    }
    assert!(total <= 600_000);
    // 1+1+2+3+5+8+13+21+34+55 = 143 s, then 60 s steps up to 600 s
    assert_eq!(n, 17);
    assert_eq!(total, 563_000);
    assert_eq!(b.next_delay(), None);
}

#[test]
fn retry_decisions() {
    let mut b = Backoff::new(10, 15, 30);
    assert_eq!(b.decide(true, 1), RetryDecision::Done);
    assert_eq!(b.decide(false, 1), RetryDecision::RetryAfter(10));
    assert_eq!(b.decide(false, 2), RetryDecision::RetryAfter(10));
    assert_eq!(b.decide(false, 3), RetryDecision::GiveUp(3));
}

#[test]
fn bus_drops_oldest_when_full() {
    let mut bus: EventBus<u32> = EventBus::new(2);
    let a = bus.subscribe();
    bus.broadcast(Arc::new(1));
    bus.broadcast(Arc::new(2));
    bus.broadcast(Arc::new(3));
    let late = bus.subscribe();
    bus.broadcast(Arc::new(4));
    assert_eq!(bus.receive(a).map(|x| *x), Some(3));
    assert_eq!(bus.receive(a).map(|x| *x), Some(4));
    assert_eq!(bus.receive(a), None);
    assert_eq!(bus.receive(late).map(|x| *x), Some(4));
    assert_eq!(bus.receive(late), None);
}

#[test]
fn event_source_commands_and_results() {
    let mut src = EventSourceCore::new(ChainId::new("chain-a".to_string()), 8);
    assert_eq!(src.handle_command(None), CommandOutcome::Idle);
    assert_eq!(src.handle_command(Some(EventSourceCmd::Subscribe)), CommandOutcome::Subscribed(0));
    let batches = src.make_batches(vec![tx(1, 5), tx(2, 6)]);
    assert_eq!(batches.len(), 2);
    assert_eq!(batches[1].tracking_id.value, 1);
    for b in batches {
        assert_eq!(src.handle_result(Ok(b)), None);
    }
    assert_eq!(
        src.handle_result(Err(EventSourceError::WebSocketDriver("reset".to_string()))),
        Some(Next::Continue)
    );
    assert_eq!(
        src.handle_result(Err(EventSourceError::SubscriptionCancelled("closed".to_string()))),
        Some(Next::Continue)
    );
    let first = src.receive(0).unwrap();
    assert_eq!(first.as_ref().as_ref().unwrap().height, h(5));
    let second = src.receive(0).unwrap();
    assert_eq!(second.as_ref().as_ref().unwrap().height, h(6));
    let third = src.receive(0).unwrap();
    assert!(matches!(third.as_ref(), Err(EventSourceError::SubscriptionCancelled(_))));
    assert!(src.receive(0).is_none());
    assert_eq!(src.handle_command(Some(EventSourceCmd::Shutdown)), CommandOutcome::Abort);
}

#[test]
fn streaming_batches_wait_for_next_height() {
    let mut src = EventSourceCore::new(ChainId::new("chain-a".to_string()), 4);
    assert!(src.push_events(vec![ev(IbcEvent::NewBlock, 5)]).is_empty());
    assert!(src.push_events(vec![tx(1, 5), tx(2, 5)]).is_empty());
    assert_eq!(src.pending_len(), 3);
    let done = src.push_events(vec![tx(3, 6)]);
    assert_eq!(done.len(), 1);
    assert_eq!(done[0].height, h(5));
    assert_eq!(done[0].events.len(), 3);
    assert!(done[0].events[0].event.is_new_block());
    assert_eq!(done[0].tracking_id.value, 0);
    let done = src.push_events(vec![ev(IbcEvent::NewBlock, 6), tx(4, 7)]);
    assert_eq!(done.len(), 1);
    assert_eq!(done[0].height, h(6));
    assert!(done[0].events[0].event.is_new_block());
    assert_eq!(seq_of(&done[0].events[1]), Some(3));
    assert_eq!(done[0].tracking_id.value, 1);
    assert_eq!(src.next_tracking_id(), 2);
    assert_eq!(src.pending_len(), 1);
}
