use vstd::prelude::*;
use crate::events::Height;

verus! {

/// How the relaying of one packet ended.
#[derive(Clone, Copy, Debug, PartialEq, Eq, Structural)]
pub enum RelayOutcome {
    Acked,
    TimedOut,
    FilteredOut,
    /// A permanent error, or transient errors beyond the retry budget.
    Failed,
}

/// The chain that a message goes to.
#[derive(Clone, Copy, Debug, PartialEq, Eq, Structural)]
pub enum Target {
    Source,
    Destination,
}

/// Where the relaying of a packet stands. Heights carried by a stage are
/// the heights that its action uses.
#[derive(Clone, Copy, Debug, PartialEq, Eq, Structural)]
pub enum RelayStage {
    Filter,
    CheckReceived,
    CheckTimeout,
    UpdateDestinationClient(Height),
    RelayRecv(Height),
    AwaitWriteAck,
    UpdateSourceClient(Height),
    RelayAck(Height),
    UpdateSourceClientForTimeout(Height),
    RelayTimeout(Height),
    Done(RelayOutcome),
}

/// What the caller must do next for the packet.
#[derive(Clone, Copy, Debug, PartialEq, Eq, Structural)]
pub enum RelayAction {
    /// Ask the relay's packet filter.
    CheckFilter,
    /// Ask the destination whether it received the packet.
    QueryReceived,
    /// Query the destination's latest height and timestamp.
    QueryDestinationStatus,
    /// Advance the client on `target` to at least `height`.
    UpdateClient { target: Target, height: Height },
    /// Submit `RecvPacket` to the destination with this proof height.
    SubmitRecv(Height),
    /// Look for the destination's `WriteAcknowledgement` of the packet.
    QueryWriteAck,
    /// Submit `AckPacket` to the source with this proof height.
    SubmitAck(Height),
    /// Submit `TimeoutPacket` to the source with this proof height.
    SubmitTimeout(Height),
    /// Nothing is left to do.
    Finish(RelayOutcome),
}

/// What came back from performing an action.
#[derive(Clone, Copy, Debug, PartialEq, Eq, Structural)]
pub enum RelayResponse {
    Filter(bool),
    Received(bool),
    DestinationStatus { height: Height, timestamp: u64 },
    /// The client was updated, or was already past the height asked for.
    ClientUpdated,
    /// `RecvPacket` went through; the height of the `WriteAcknowledgement`
    /// among its events, if there was one.
    RecvSubmitted(Option<Height>),
    /// The height of the `WriteAcknowledgement`, if it was found.
    WriteAck(Option<Height>),
    Submitted,
    TransientError,
    PermanentError,
}

/// The state of the relaying of one packet that the source chain sent at
/// `source_height`.
#[derive(Clone, Copy, Debug, PartialEq, Eq, Structural)]
pub struct PacketRelay {
    pub stage: RelayStage,
    pub source_height: Height,
    /// Zero when unset.
    pub timeout_height: Height,
    /// Zero when unset.
    pub timeout_timestamp: u64,
    pub retries_left: u64,
    pub max_retries: u64,
}

pub open spec fn spec_next_height(h: Height) -> Option<Height> {
    if h.revision_height < u64::MAX {
        Some(Height { revision_number: h.revision_number, revision_height: (h.revision_height + 1) as u64 })
    } else {
        None
    }
}

/// The proof height for a commitment at `h`: the next height.
pub fn next_height(h: Height) -> (r: Option<Height>)
    ensures
        r == spec_next_height(h),
{
    if h.revision_height < u64::MAX {
        Some(Height { revision_number: h.revision_number, revision_height: h.revision_height + 1 })
    } else {
        None
    }
}

pub open spec fn height_is_zero(h: Height) -> bool {
    h.revision_number == 0 && h.revision_height == 0
}

/// Whether a destination at `height` and `timestamp` is past the packet's
/// timeout; an unset (zero) bound never expires.
pub open spec fn spec_timed_out(s: PacketRelay, height: Height, timestamp: u64) -> bool {
    (!height_is_zero(s.timeout_height) && s.timeout_height.spec_lt(height)) || (s.timeout_timestamp
        != 0 && s.timeout_timestamp < timestamp)
}

impl PacketRelay {
    pub open spec fn is_done(&self) -> bool {
        self.stage is Done
    }

    pub open spec fn wf(&self) -> bool {
        self.retries_left <= self.max_retries
    }

    /// `self` moved on to `stage`, with a fresh retry budget.
    pub open spec fn advance(self, stage: RelayStage) -> PacketRelay {
        PacketRelay { stage, retries_left: self.max_retries, ..self }
    }

    pub open spec fn spec_action(&self) -> RelayAction {
        match self.stage {
            RelayStage::Filter => RelayAction::CheckFilter,
            RelayStage::CheckReceived => RelayAction::QueryReceived,
            RelayStage::CheckTimeout => RelayAction::QueryDestinationStatus,
            RelayStage::UpdateDestinationClient(h) => RelayAction::UpdateClient {
                target: Target::Destination,
                height: h,
            },
            RelayStage::RelayRecv(h) => RelayAction::SubmitRecv(h),
            RelayStage::AwaitWriteAck => RelayAction::QueryWriteAck,
            RelayStage::UpdateSourceClient(h) => RelayAction::UpdateClient {
                target: Target::Source,
                height: h,
            },
            RelayStage::RelayAck(h) => RelayAction::SubmitAck(h),
            RelayStage::UpdateSourceClientForTimeout(h) => RelayAction::UpdateClient {
                target: Target::Source,
                height: h,
            },
            RelayStage::RelayTimeout(h) => RelayAction::SubmitTimeout(h),
            RelayStage::Done(o) => RelayAction::Finish(o),
        }
    }

    /// The state after the response `resp` to this state's action.
    pub open spec fn spec_step(self, resp: RelayResponse) -> PacketRelay {
        let failed = self.advance(RelayStage::Done(RelayOutcome::Failed));
        match (self.stage, resp) {
            (RelayStage::Done(_), _) => self,
            (_, RelayResponse::TransientError) => if self.retries_left > 0 {
                PacketRelay { retries_left: (self.retries_left - 1) as u64, ..self }
            } else {
                failed
            },
            (RelayStage::Filter, RelayResponse::Filter(true)) => self.advance(RelayStage::CheckReceived),
            (RelayStage::Filter, RelayResponse::Filter(false)) => self.advance(
                RelayStage::Done(RelayOutcome::FilteredOut),
            ),
            (RelayStage::CheckReceived, RelayResponse::Received(true)) => self.advance(
                RelayStage::AwaitWriteAck,
            ),
            (RelayStage::CheckReceived, RelayResponse::Received(false)) => self.advance(
                RelayStage::CheckTimeout,
            ),
            (RelayStage::CheckTimeout, RelayResponse::DestinationStatus { height, timestamp }) => {
                if spec_timed_out(self, height, timestamp) {
                    match spec_next_height(height) {
                        Some(h) => self.advance(RelayStage::UpdateSourceClientForTimeout(h)),
                        None => failed,
                    }
                } else {
                    match spec_next_height(self.source_height) {
                        Some(h) => self.advance(RelayStage::UpdateDestinationClient(h)),
                        None => failed,
                    }
                }
            },
            (RelayStage::UpdateDestinationClient(h), RelayResponse::ClientUpdated) => self.advance(
                RelayStage::RelayRecv(h),
            ),
            (RelayStage::RelayRecv(_), RelayResponse::RecvSubmitted(None)) => self.advance(
                RelayStage::AwaitWriteAck,
            ),
            (RelayStage::RelayRecv(_), RelayResponse::RecvSubmitted(Some(ack_height))) => {
                match spec_next_height(ack_height) {
                    Some(h) => self.advance(RelayStage::UpdateSourceClient(h)),
                    None => failed,
                }
            },
            (RelayStage::AwaitWriteAck, RelayResponse::WriteAck(Some(ack_height))) => {
                match spec_next_height(ack_height) {
                    Some(h) => self.advance(RelayStage::UpdateSourceClient(h)),
                    None => failed,
                }
            },
            (RelayStage::AwaitWriteAck, RelayResponse::WriteAck(None)) => if self.retries_left > 0 {
                PacketRelay { retries_left: (self.retries_left - 1) as u64, ..self }
            } else {
                failed
            },
            (RelayStage::UpdateSourceClient(h), RelayResponse::ClientUpdated) => self.advance(
                RelayStage::RelayAck(h),
            ),
            (RelayStage::RelayAck(_), RelayResponse::Submitted) => self.advance(
                RelayStage::Done(RelayOutcome::Acked),
            ),
            (RelayStage::UpdateSourceClientForTimeout(h), RelayResponse::ClientUpdated) => self.advance(
                RelayStage::RelayTimeout(h),
            ),
            (RelayStage::RelayTimeout(_), RelayResponse::Submitted) => self.advance(
                RelayStage::Done(RelayOutcome::TimedOut),
            ),
            _ => failed,
        }
    }

    /// The relaying of a packet sent at `source_height`, which allows
    /// `max_retries` transient errors in a row at each stage.
    pub fn new(source_height: Height, timeout_height: Height, timeout_timestamp: u64, max_retries: u64) -> (r: PacketRelay)
        ensures
            r.wf(),
            r.stage == RelayStage::Filter,
            r.source_height == source_height,
            r.timeout_height == timeout_height,
            r.timeout_timestamp == timeout_timestamp,
            r.retries_left == max_retries,
            r.max_retries == max_retries,
    {
        PacketRelay {
            stage: RelayStage::Filter,
            source_height,
            timeout_height,
            timeout_timestamp,
            retries_left: max_retries,
            max_retries,
        }
    }

    /// The action that this state asks for.
    pub fn action(&self) -> (r: RelayAction)
        ensures
            r == self.spec_action(),
    {
        match self.stage {
            RelayStage::Filter => RelayAction::CheckFilter,
            RelayStage::CheckReceived => RelayAction::QueryReceived,
            RelayStage::CheckTimeout => RelayAction::QueryDestinationStatus,
            RelayStage::UpdateDestinationClient(h) => RelayAction::UpdateClient {
                target: Target::Destination,
                height: h,
            },
            RelayStage::RelayRecv(h) => RelayAction::SubmitRecv(h),
            RelayStage::AwaitWriteAck => RelayAction::QueryWriteAck,
            RelayStage::UpdateSourceClient(h) => RelayAction::UpdateClient {
                target: Target::Source,
                height: h,
            },
            RelayStage::RelayAck(h) => RelayAction::SubmitAck(h),
            RelayStage::UpdateSourceClientForTimeout(h) => RelayAction::UpdateClient {
                target: Target::Source,
                height: h,
            },
            RelayStage::RelayTimeout(h) => RelayAction::SubmitTimeout(h),
            RelayStage::Done(o) => RelayAction::Finish(o),
        }
    }

    /// Whether a destination at `height` and `timestamp` is past the
    /// packet's timeout.
    pub fn timed_out(&self, height: Height, timestamp: u64) -> (r: bool)
        ensures
            r == spec_timed_out(*self, height, timestamp),
    {
        let zero = self.timeout_height.revision_number == 0 && self.timeout_height.revision_height
            == 0;
        (!zero && self.timeout_height.lt(&height)) || (self.timeout_timestamp != 0
            && self.timeout_timestamp < timestamp)
    }

    fn moved(&self, stage: RelayStage) -> (r: PacketRelay)
        ensures
            r == self.advance(stage),
    {
        PacketRelay { stage, retries_left: self.max_retries, ..*self }
    }

    fn retried(&self) -> (r: PacketRelay)
        ensures
            r == (if self.retries_left > 0 {
                PacketRelay { retries_left: (self.retries_left - 1) as u64, ..*self }
            } else {
                self.advance(RelayStage::Done(RelayOutcome::Failed))
            }),
    {
        if self.retries_left > 0 {
            PacketRelay { retries_left: self.retries_left - 1, ..*self }
        } else {
            self.moved(RelayStage::Done(RelayOutcome::Failed))
        }
    }

    fn after_ack_at(&self, ack_height: Height) -> (r: PacketRelay)
        ensures
            r == (match spec_next_height(ack_height) {
                Some(h) => self.advance(RelayStage::UpdateSourceClient(h)),
                None => self.advance(RelayStage::Done(RelayOutcome::Failed)),
            }),
    {
        match next_height(ack_height) {
            Some(h) => self.moved(RelayStage::UpdateSourceClient(h)),
            None => self.moved(RelayStage::Done(RelayOutcome::Failed)),
        }
    }

    /// The state after the response `resp` to this state's action. A
    /// received packet is acknowledged even when it has also timed out.
    pub fn step(&self, resp: RelayResponse) -> (r: PacketRelay)
        ensures
            r == self.spec_step(resp),
    {
        match (self.stage, resp) {
            (RelayStage::Done(_), _) => *self,
            (_, RelayResponse::TransientError) => self.retried(),
            (RelayStage::Filter, RelayResponse::Filter(true)) => self.moved(RelayStage::CheckReceived),
            (RelayStage::Filter, RelayResponse::Filter(false)) => self.moved(
                RelayStage::Done(RelayOutcome::FilteredOut),
            ),
            (RelayStage::CheckReceived, RelayResponse::Received(true)) => self.moved(
                RelayStage::AwaitWriteAck,
            ),
            (RelayStage::CheckReceived, RelayResponse::Received(false)) => self.moved(
                RelayStage::CheckTimeout,
            ),
            (RelayStage::CheckTimeout, RelayResponse::DestinationStatus { height, timestamp }) => {
                if self.timed_out(height, timestamp) {
                    match next_height(height) {
                        Some(h) => self.moved(RelayStage::UpdateSourceClientForTimeout(h)),
                        None => self.moved(RelayStage::Done(RelayOutcome::Failed)),
                    }
                } else {
                    match next_height(self.source_height) {
                        Some(h) => self.moved(RelayStage::UpdateDestinationClient(h)),
                        None => self.moved(RelayStage::Done(RelayOutcome::Failed)),
                    }
                }
            },
            (RelayStage::UpdateDestinationClient(h), RelayResponse::ClientUpdated) => self.moved(
                RelayStage::RelayRecv(h),
            ),
            (RelayStage::RelayRecv(_), RelayResponse::RecvSubmitted(None)) => self.moved(
                RelayStage::AwaitWriteAck,
            ),
            (RelayStage::RelayRecv(_), RelayResponse::RecvSubmitted(Some(ack_height))) => self.after_ack_at(
                ack_height,
            ),
            (RelayStage::AwaitWriteAck, RelayResponse::WriteAck(Some(ack_height))) => self.after_ack_at(
                ack_height,
            ),
            (RelayStage::AwaitWriteAck, RelayResponse::WriteAck(None)) => self.retried(),
            (RelayStage::UpdateSourceClient(h), RelayResponse::ClientUpdated) => self.moved(
                RelayStage::RelayAck(h),
            ),
            (RelayStage::RelayAck(_), RelayResponse::Submitted) => self.moved(
                RelayStage::Done(RelayOutcome::Acked),
            ),
            (RelayStage::UpdateSourceClientForTimeout(h), RelayResponse::ClientUpdated) => self.moved(
                RelayStage::RelayTimeout(h),
            ),
            (RelayStage::RelayTimeout(_), RelayResponse::Submitted) => self.moved(
                RelayStage::Done(RelayOutcome::TimedOut),
            ),
            _ => self.moved(RelayStage::Done(RelayOutcome::Failed)),
        }
    }
}

/// The number of stages at most between `stage` and the end.
pub open spec fn stage_rank(stage: RelayStage) -> int {
    match stage {
        RelayStage::Done(_) => 0,
        RelayStage::RelayAck(_) => 1,
        RelayStage::RelayTimeout(_) => 1,
        RelayStage::UpdateSourceClient(_) => 2,
        RelayStage::UpdateSourceClientForTimeout(_) => 2,
        RelayStage::AwaitWriteAck => 3,
        RelayStage::RelayRecv(_) => 4,
        RelayStage::UpdateDestinationClient(_) => 5,
        RelayStage::CheckTimeout => 6,
        RelayStage::CheckReceived => 7,
        RelayStage::Filter => 8,
    }
}

/// An upper bound on the number of responses before the relaying ends.
pub open spec fn measure(s: PacketRelay) -> int {
    stage_rank(s.stage) * (s.max_retries + 1) + s.retries_left
}

/// The state after the responses `resps`, in order.
pub open spec fn run(s: PacketRelay, resps: Seq<RelayResponse>) -> PacketRelay
    decreases resps.len(),
{
    if resps.len() == 0 {
        s
    } else {
        run(s, resps.drop_last()).spec_step(resps.last())
    }
}

/// Each response either ends the relaying of a packet or brings it closer
/// to its end; an ended relaying stays ended.
pub proof fn lemma_step_progress(s: PacketRelay, resp: RelayResponse)
    requires
        s.wf(),
    ensures
        s.spec_step(resp).wf(),
        s.spec_step(resp).max_retries == s.max_retries,
        s.is_done() ==> s.spec_step(resp) == s,
        !s.is_done() ==> s.spec_step(resp).is_done() || measure(s.spec_step(resp)) < measure(s),
        measure(s.spec_step(resp)) <= measure(s),
        0 <= measure(s.spec_step(resp)),
{
    let n = s.max_retries + 1;
    assert forall|a: int, b: int| 0 <= a < b implies #[trigger] (a * n) + s.max_retries < #[trigger] (b
        * n) by {
        lemma_rank_gap(a, b, n);
    }
    assert forall|a: int| 0 <= a implies 0 <= #[trigger] (a * n) by {
        lemma_rank_gap(0, a + 1, n);
        assert(a * n <= (a + 1) * n) by (nonlinear_arith)
            requires
                n >= 1,
        ;
    }
}

proof fn lemma_rank_gap(a: int, b: int, n: int)
    requires
        0 <= a < b,
        n >= 1,
    ensures
        a * n + n <= b * n,
        0 <= a * n,
{
    assert(a * n + n <= b * n) by (nonlinear_arith)
        requires
            a + 1 <= b,
            n >= 1,
    ;
    assert(0 <= a * n) by (nonlinear_arith)
        requires
            0 <= a,
            n >= 1,
    ;
}

/// The relaying of a packet ends, whatever the responses, after more
/// responses than its measure; it ends as acknowledged, timed out, filtered
/// out or failed.
pub proof fn lemma_relay_terminates(s: PacketRelay, resps: Seq<RelayResponse>)
    requires
        s.wf(),
    ensures
        run(s, resps).wf(),
        run(s, resps).max_retries == s.max_retries,
        0 <= measure(run(s, resps)),
        run(s, resps).is_done() || measure(run(s, resps)) <= measure(s) - resps.len(),
        resps.len() > measure(s) ==> run(s, resps).is_done(),
        run(s, resps).is_done() ==> match run(s, resps).stage {
            RelayStage::Done(o) => o == RelayOutcome::Acked || o == RelayOutcome::TimedOut || o
                == RelayOutcome::FilteredOut || o == RelayOutcome::Failed,
            _ => false,
        },
    decreases resps.len(),
{
    if resps.len() > 0 {
        lemma_relay_terminates(s, resps.drop_last());
        let p = run(s, resps.drop_last());
        lemma_step_progress(p, resps.last());
    } else {
        lemma_step_progress(s, RelayResponse::Submitted);
    }
}

} // verus!
