use std::sync::Arc;
use vstd::prelude::*;
use crate::bus::{push_bounded, EventBus};
use crate::events::{
    all_at_height, batch_well_formed, id_after, lemma_id_jump, batches_from_groups, blocks_first, flatten, group_by_height,
    is_height_grouping, new_block_leads, stream_batches, ChainId, EventBatch, IbcEventWithHeight,
};

verus! {

/// A command sent to a running event source.
#[derive(Clone, Copy, Debug, PartialEq, Eq, Structural)]
pub enum EventSourceCmd {
    Shutdown,
    Subscribe,
}

/// What the outer loop of an event source does after its inner loop ends.
#[derive(Clone, Copy, Debug, PartialEq, Eq, Structural)]
pub enum Next {
    Abort,
    Continue,
}

/// A query that an event source subscribes to.
#[derive(Clone, Copy, Debug, PartialEq, Eq, Structural)]
pub enum EventQuery {
    NewBlock,
    Tx,
}

/// The queries that an event source subscribes to: new blocks and
/// transactions.
pub fn queries() -> (r: Vec<EventQuery>)
    ensures
        r@ == seq![EventQuery::NewBlock, EventQuery::Tx],
{
    let mut q: Vec<EventQuery> = Vec::new();
    q.push(EventQuery::NewBlock);
    q.push(EventQuery::Tx);
    proof {
        assert(q@ =~= seq![EventQuery::NewBlock, EventQuery::Tx]);
    }
    q
}

/// The failures of an event source.
#[derive(Clone, Debug)]
pub enum EventSourceError {
    /// The server closed the subscription.
    SubscriptionCancelled(String),
    /// The websocket driver stopped with an error.
    WebSocketDriver(String),
    /// The subscription stream failed for another reason.
    CollectEventsFailed(String),
    ClientCreationFailed(String),
    ClientSubscriptionFailed(String),
    ClientTerminationFailed(String),
}

/// The result of handling a pending command.
#[derive(Clone, Copy, Debug, PartialEq, Eq, Structural)]
pub enum CommandOutcome {
    /// No command was pending.
    Idle,
    /// A shutdown was asked for: the inner loop ends with [`Next::Abort`].
    Abort,
    /// A new subscriber was registered under this index.
    Subscribed(usize),
}

/// What an event source publishes: a batch, or an error that subscribers
/// must see.
pub type Published = Result<EventBatch, EventSourceError>;

/// The decisions of an event source: its bus and the tracking ids it mints.
/// The websocket client, its driver and the stream of RPC events are run by
/// the caller, which hands each result to this value.
pub struct EventSourceCore {
    chain_id: ChainId,
    bus: EventBus<Published>,
    next_tracking_id: u64,
    /// The events of the latest height, whose batch may still grow.
    pending: Vec<IbcEventWithHeight>,
}

impl EventSourceCore {
    pub closed spec fn chain(&self) -> Seq<char> {
        self.chain_id.id@
    }

    pub closed spec fn bus(&self) -> EventBus<Published> {
        self.bus
    }

    pub closed spec fn next_id(&self) -> u64 {
        self.next_tracking_id
    }

    pub closed spec fn pending(&self) -> Seq<IbcEventWithHeight> {
        self.pending@
    }

    pub closed spec fn wf(&self) -> bool {
        &&& self.bus.wf()
        &&& self.pending@.len() > 0 ==> all_at_height(self.pending@, self.pending@[0].height)
    }

    /// An event source for `chain_id` whose subscribers each buffer at most
    /// `capacity` items.
    pub fn new(chain_id: ChainId, capacity: usize) -> (r: EventSourceCore)
        requires
            capacity > 0,
        ensures
            r.wf(),
            r.chain() == chain_id.id@,
            r.bus().queues().len() == 0,
            r.bus().capacity() == capacity,
            r.next_id() == 0,
            r.pending() == Seq::<IbcEventWithHeight>::empty(),
    {
        EventSourceCore { chain_id, bus: EventBus::new(capacity), next_tracking_id: 0, pending: Vec::new() }
    }

    /// The tracking id that the next batch takes.
    pub fn next_tracking_id(&self) -> (r: u64)
        ensures
            r == self.next_id(),
    {
        self.next_tracking_id
    }

    /// The number of events waiting for their batch to complete.
    pub fn pending_len(&self) -> (r: usize)
        ensures
            r == self.pending().len(),
    {
        self.pending.len()
    }

    /// Handles the command that was pending, if any.
    pub fn handle_command(&mut self, cmd: Option<EventSourceCmd>) -> (r: CommandOutcome)
        requires
            old(self).wf(),
            old(self).bus().queues().len() < usize::MAX,
        ensures
            final(self).wf(),
            final(self).chain() == old(self).chain(),
            final(self).next_id() == old(self).next_id(),
            final(self).pending() == old(self).pending(),
            final(self).bus().capacity() == old(self).bus().capacity(),
            match cmd {
                None => r == CommandOutcome::Idle && final(self).bus() == old(self).bus(),
                Some(EventSourceCmd::Shutdown) => r == CommandOutcome::Abort && final(self).bus()
                    == old(self).bus(),
                Some(EventSourceCmd::Subscribe) => r == CommandOutcome::Subscribed(
                    old(self).bus().queues().len() as usize,
                ) && final(self).bus().queues() == old(self).bus().queues().push(Seq::<Published>::empty()),
            },
    {
        match cmd {
            None => CommandOutcome::Idle,
            Some(EventSourceCmd::Shutdown) => CommandOutcome::Abort,
            Some(EventSourceCmd::Subscribe) => CommandOutcome::Subscribed(self.bus.subscribe()),
        }
    }

    /// Turns the events received since the last call into batches, minting a
    /// fresh tracking id for each.
    pub fn make_batches(&mut self, events: Vec<IbcEventWithHeight>) -> (r: Vec<EventBatch>)
        requires
            old(self).wf(),
        ensures
            final(self).wf(),
            final(self).chain() == old(self).chain(),
            final(self).bus() == old(self).bus(),
            final(self).next_id() == id_after(old(self).next_id(), r@.len() as int),
            final(self).pending() == old(self).pending(),
            exists|groups: Seq<Seq<IbcEventWithHeight>>|
                {
                    &&& flatten(groups) == events@
                    &&& is_height_grouping(groups)
                    &&& groups.len() == r@.len()
                    &&& forall|k: int|
                        0 <= k < r@.len() ==> (#[trigger] r@[k]).events@ == blocks_first(groups[k])
                            && r@[k].height == groups[k][0].height
                },
            forall|k: int|
                0 <= k < r@.len() ==> batch_well_formed(#[trigger] r@[k], old(self).chain())
                    && new_block_leads(r@[k].events@) && r@[k].tracking_id.value == id_after(old(self).next_id(), k),
    {
        let r = stream_batches(&self.chain_id, events, self.next_tracking_id);
        proof {
            lemma_id_jump(self.next_tracking_id, r@.len() as u64);
        }
        self.next_tracking_id = self.next_tracking_id.wrapping_add(r.len() as u64);
        r
    }

    /// Adds the events of one RPC event to the stream and returns the
    /// batches that are complete: those of every height before the latest.
    /// The events of the latest height wait for the next call.
    pub fn push_events(&mut self, events: Vec<IbcEventWithHeight>) -> (r: Vec<EventBatch>)
        requires
            old(self).wf(),
        ensures
            final(self).wf(),
            final(self).chain() == old(self).chain(),
            final(self).bus() == old(self).bus(),
            final(self).next_id() == id_after(old(self).next_id(), r@.len() as int),
            exists|groups: Seq<Seq<IbcEventWithHeight>>|
                {
                    &&& flatten(groups) + final(self).pending() == old(self).pending() + events@
                    &&& is_height_grouping(groups)
                    &&& groups.len() == r@.len()
                    &&& forall|k: int|
                        0 <= k < r@.len() ==> (#[trigger] r@[k]).events@ == blocks_first(groups[k])
                    &&& groups.len() > 0 && final(self).pending().len() > 0 ==> groups.last()[0].height
                        != final(self).pending()[0].height
                },
            forall|k: int|
                0 <= k < r@.len() ==> batch_well_formed(#[trigger] r@[k], old(self).chain())
                    && new_block_leads(r@[k].events@) && r@[k].tracking_id.value == id_after(old(self).next_id(), k),
    {
        let ghost all = self.pending@ + events@;
        let mut joined: Vec<IbcEventWithHeight> = Vec::new();
        std::mem::swap(&mut joined, &mut self.pending);
        let mut events = events;
        joined.append(&mut events);
        assert(joined@ == all);
        let mut groups = group_by_height(joined);
        let ghost gs = groups@.map_values(|g: Vec<IbcEventWithHeight>| g@);
        if groups.len() > 0 {
            let last = groups.pop().unwrap();
            proof {
                crate::events::lemma_grouping_prefix(gs);
                assert(groups@.map_values(|g: Vec<IbcEventWithHeight>| g@) =~= gs.drop_last());
                assert(last@ == gs.last());
                assert(gs[gs.len() - 1].len() > 0);
            }
            self.pending = last;
        }
        let ghost prefix = groups@.map_values(|g: Vec<IbcEventWithHeight>| g@);
        let r = batches_from_groups(&self.chain_id, groups, self.next_tracking_id);
        proof {
            assert forall|k: int| 0 <= k < r@.len() implies (#[trigger] r@[k]).events@ == blocks_first(
                prefix[k],
            ) by {
                assert(prefix[k] == groups@[k]@);
            }
            if prefix.len() > 0 && self.pending@.len() > 0 {
                assert(gs[gs.len() - 1] == self.pending@);
                assert(gs[gs.len() - 2] == prefix.last());
            }
            if gs.len() == 0 {
                assert(self.pending@ =~= Seq::<IbcEventWithHeight>::empty());
                assert(flatten(prefix) + self.pending@ =~= all);
            }
        }
        proof {
            lemma_id_jump(self.next_tracking_id, r@.len() as u64);
        }
        self.next_tracking_id = self.next_tracking_id.wrapping_add(r.len() as u64);
        r
    }

    /// Handles one result of the batch stream. A batch is broadcast and the
    /// inner loop goes on (`None`). On an error the inner loop ends so that
    /// the caller reconnects and starts a new one (`Some(Next::Continue)`);
    /// a cancelled subscription is broadcast first, so that subscribers can
    /// clear pending packets.
    pub fn handle_result(&mut self, result: Published) -> (r: Option<Next>)
        requires
            old(self).wf(),
        ensures
            final(self).wf(),
            final(self).chain() == old(self).chain(),
            final(self).next_id() == old(self).next_id(),
            final(self).pending() == old(self).pending(),
            final(self).bus().capacity() == old(self).bus().capacity(),
            final(self).bus().queues().len() == old(self).bus().queues().len(),
            match result {
                Ok(_) => r is None,
                Err(_) => r == Some(Next::Continue),
            },
            (result is Ok || result->Err_0 is SubscriptionCancelled) ==> forall|i: int|
                0 <= i < old(self).bus().queues().len() ==> (#[trigger] final(self).bus().queues()[i])
                    == push_bounded(old(self).bus().queues()[i], result, old(self).bus().capacity()),
            !(result is Ok || result->Err_0 is SubscriptionCancelled) ==> final(self).bus() == old(
                self,
            ).bus(),
    {
        match result {
            Ok(batch) => {
                self.bus.broadcast(Arc::new(Ok(batch)));
                None
            },
            Err(e) => {
                match e {
                    EventSourceError::SubscriptionCancelled(_) => {
                        self.bus.broadcast(Arc::new(Err(e)));
                    },
                    _ => {},
                }
                Some(Next::Continue)
            },
        }
    }

    /// Takes the oldest item waiting for subscriber `idx`.
    pub fn receive(&mut self, idx: usize) -> (r: Option<Arc<Published>>)
        requires
            old(self).wf(),
            idx < old(self).bus().queues().len(),
        ensures
            final(self).wf(),
            final(self).chain() == old(self).chain(),
            final(self).next_id() == old(self).next_id(),
            final(self).pending() == old(self).pending(),
            final(self).bus().capacity() == old(self).bus().capacity(),
            old(self).bus().queues()[idx as int].len() == 0 ==> r is None && final(self).bus().queues()
                == old(self).bus().queues(),
            old(self).bus().queues()[idx as int].len() > 0 ==> r is Some && *r->0 == old(
                self,
            ).bus().queues()[idx as int][0] && final(self).bus().queues() == old(self).bus().queues().update(
                idx as int,
                old(self).bus().queues()[idx as int].drop_first(),
            ),
    {
        self.bus.receive(idx)
    }
}

} // verus!
