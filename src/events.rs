use vstd::prelude::*;

verus! {

/// A block height: a revision number and a height within that revision.
#[derive(Clone, Copy, Debug, PartialEq, Eq, Structural)]
pub struct Height {
    pub revision_number: u64,
    pub revision_height: u64,
}

impl Height {
    pub open spec fn spec_lt(self, other: Height) -> bool {
        self.revision_number < other.revision_number || (self.revision_number
            == other.revision_number && self.revision_height < other.revision_height)
    }

    pub fn new(revision_number: u64, revision_height: u64) -> (r: Height)
        ensures
            r.revision_number == revision_number,
            r.revision_height == revision_height,
    {
        Height { revision_number, revision_height }
    }

    /// Strict order on heights: by revision, then by height.
    pub fn lt(&self, other: &Height) -> (r: bool)
        ensures
            r == self.spec_lt(*other),
    {
        self.revision_number < other.revision_number || (self.revision_number
            == other.revision_number && self.revision_height < other.revision_height)
    }
}

/// The identifier of a chain.
#[derive(Clone, Debug)]
pub struct ChainId {
    pub id: String,
}

impl ChainId {
    pub fn new(id: String) -> (r: ChainId)
        ensures
            r.id@ == id@,
    {
        ChainId { id }
    }

    pub fn duplicate(&self) -> (r: ChainId)
        ensures
            r.id@ == self.id@,
    {
        ChainId { id: self.id.clone() }
    }
}

/// The fields of an IBC packet.
#[derive(Clone, Debug)]
pub struct Packet {
    pub sequence: u64,
    pub source_port: String,
    pub source_channel: String,
    pub destination_port: String,
    pub destination_channel: String,
    pub data: Vec<u8>,
    /// Zero when unset.
    pub timeout_height: Height,
    /// Nanoseconds; zero when unset.
    pub timeout_timestamp: u64,
}

impl Packet {
    /// At most one of the two timeouts is unset.
    pub open spec fn wf(&self) -> bool {
        !(self.timeout_height.revision_number == 0 && self.timeout_height.revision_height == 0
            && self.timeout_timestamp == 0)
    }

    /// Whether at most one of the two timeouts is unset.
    pub fn has_timeout(&self) -> (r: bool)
        ensures
            r == self.wf(),
    {
        !(self.timeout_height.revision_number == 0 && self.timeout_height.revision_height == 0
            && self.timeout_timestamp == 0)
    }
}

/// An IBC event as published on the event bus.
#[derive(Clone, Debug)]
pub enum IbcEvent {
    NewBlock,
    SendPacket(Packet),
    WriteAcknowledgement(Packet, Vec<u8>),
    AcknowledgePacket(Packet),
    TimeoutPacket(Packet),
    UpdateClient(String),
}

impl IbcEvent {
    pub open spec fn spec_is_new_block(&self) -> bool {
        self is NewBlock
    }

    pub fn is_new_block(&self) -> (r: bool)
        ensures
            r == self.spec_is_new_block(),
    {
        match self {
            IbcEvent::NewBlock => true,
            _ => false,
        }
    }
}

/// An IBC event together with the height at which it was emitted.
#[derive(Clone, Debug)]
pub struct IbcEventWithHeight {
    pub event: IbcEvent,
    pub height: Height,
}

/// The identifier minted for each batch.
#[derive(Clone, Copy, Debug, PartialEq, Eq, Structural)]
pub struct TrackingId {
    pub value: u64,
}

/// The events of one chain at one height.
#[derive(Clone, Debug)]
pub struct EventBatch {
    pub chain_id: ChainId,
    pub height: Height,
    pub tracking_id: TrackingId,
    pub events: Vec<IbcEventWithHeight>,
}

/// The `NewBlock` events of `s`, in order.
pub open spec fn new_blocks(s: Seq<IbcEventWithHeight>) -> Seq<IbcEventWithHeight>
    decreases s.len(),
{
    if s.len() == 0 {
        Seq::empty()
    } else if s.last().event.spec_is_new_block() {
        new_blocks(s.drop_last()).push(s.last())
    } else {
        new_blocks(s.drop_last())
    }
}

/// The events of `s` other than `NewBlock`, in order.
pub open spec fn non_blocks(s: Seq<IbcEventWithHeight>) -> Seq<IbcEventWithHeight>
    decreases s.len(),
{
    if s.len() == 0 {
        Seq::empty()
    } else if s.last().event.spec_is_new_block() {
        non_blocks(s.drop_last())
    } else {
        non_blocks(s.drop_last()).push(s.last())
    }
}

/// `s` reordered stably so that every `NewBlock` event comes first.
pub open spec fn blocks_first(s: Seq<IbcEventWithHeight>) -> Seq<IbcEventWithHeight> {
    new_blocks(s) + non_blocks(s)
}

/// Every event of `s` is at height `h`.
pub open spec fn all_at_height(s: Seq<IbcEventWithHeight>, h: Height) -> bool {
    forall|i: int| 0 <= i < s.len() ==> (#[trigger] s[i]).height == h
}

/// The concatenation of the groups, in order.
pub open spec fn flatten<T>(groups: Seq<Seq<T>>) -> Seq<T>
    decreases groups.len(),
{
    if groups.len() == 0 {
        Seq::empty()
    } else {
        flatten(groups.drop_last()) + groups.last()
    }
}

/// `groups` splits a sequence into maximal runs of events of equal height.
pub open spec fn is_height_grouping(groups: Seq<Seq<IbcEventWithHeight>>) -> bool {
    &&& forall|k: int| 0 <= k < groups.len() ==> (#[trigger] groups[k]).len() > 0
    &&& forall|k: int|
        0 <= k < groups.len() ==> all_at_height(#[trigger] groups[k], groups[k][0].height)
    &&& forall|k: int|
        0 < k < groups.len() ==> (#[trigger] groups[k])[0].height != groups[k - 1][0].height
}

pub proof fn lemma_split_push(s: Seq<IbcEventWithHeight>, x: IbcEventWithHeight)
    ensures
        new_blocks(s.push(x)) == (if x.event.spec_is_new_block() {
            new_blocks(s).push(x)
        } else {
            new_blocks(s)
        }),
        non_blocks(s.push(x)) == (if x.event.spec_is_new_block() {
            non_blocks(s)
        } else {
            non_blocks(s).push(x)
        }),
{
    assert(s.push(x).drop_last() =~= s);
}

/// Every member of `new_blocks(s)` is a `NewBlock` event and no member of
/// `non_blocks(s)` is; both keep the heights of `s`.
pub proof fn lemma_split_members(s: Seq<IbcEventWithHeight>, h: Height)
    ensures
        forall|i: int|
            0 <= i < new_blocks(s).len() ==> (#[trigger] new_blocks(s)[i]).event.spec_is_new_block(),
        forall|i: int|
            0 <= i < non_blocks(s).len() ==> !(#[trigger] non_blocks(s)[i]).event.spec_is_new_block(),
        all_at_height(s, h) ==> all_at_height(new_blocks(s), h) && all_at_height(non_blocks(s), h),
        new_blocks(s).len() + non_blocks(s).len() == s.len(),
        (exists|i: int| 0 <= i < s.len() && (#[trigger] s[i]).event.spec_is_new_block())
            ==> new_blocks(s).len() > 0,
    decreases s.len(),
{
    if s.len() > 0 {
        let p = s.drop_last();
        lemma_split_members(p, h);
        assert(p.push(s.last()) =~= s);
        lemma_split_push(p, s.last());
        if all_at_height(s, h) {
            assert forall|i: int| 0 <= i < p.len() implies (#[trigger] p[i]).height == h by {
                assert(p[i] == s[i]);
            }
        }
        if exists|i: int| 0 <= i < s.len() && (#[trigger] s[i]).event.spec_is_new_block() {
            let i = choose|i: int| 0 <= i < s.len() && (#[trigger] s[i]).event.spec_is_new_block();
            if i < s.len() - 1 {
                assert(p[i] == s[i]);
            }
        }
    }
}

/// Reorders the events stably so that every `NewBlock` event comes first and
/// the others keep their relative order.
pub fn sort_events(events: Vec<IbcEventWithHeight>) -> (r: Vec<IbcEventWithHeight>)
    ensures
        r@ == blocks_first(events@),
{
    let mut blocks: Vec<IbcEventWithHeight> = Vec::new();
    let mut others: Vec<IbcEventWithHeight> = Vec::new();
    let mut rest = events;
    let ghost taken: Seq<IbcEventWithHeight> = Seq::empty();
    while rest.len() > 0
        invariant
            taken + rest@ == events@,
            blocks@ == new_blocks(taken),
            others@ == non_blocks(taken),
        decreases rest.len(),
    {
        let e = rest.remove(0);
        proof {
            lemma_split_push(taken, e);
            taken = taken.push(e);
        }
        if e.event.is_new_block() {
            blocks.push(e);
        } else {
            others.push(e);
        }
    }
    proof {
        assert(taken =~= events@);
    }
    blocks.append(&mut others);
    blocks
}

/// The events decoded from one RPC event, or nothing when decoding failed.
pub fn collect_events(decoded: Option<Vec<IbcEventWithHeight>>) -> (r: Vec<IbcEventWithHeight>)
    ensures
        r@ == match decoded {
            Some(v) => v@,
            None => Seq::empty(),
        },
{
    match decoded {
        Some(v) => v,
        None => Vec::new(),
    }
}

/// Splits `events` into maximal runs of equal height, keeping their order.
pub fn group_by_height(events: Vec<IbcEventWithHeight>) -> (r: Vec<Vec<IbcEventWithHeight>>)
    ensures
        flatten(r@.map_values(|g: Vec<IbcEventWithHeight>| g@)) == events@,
        is_height_grouping(r@.map_values(|g: Vec<IbcEventWithHeight>| g@)),
{
    let mut groups: Vec<Vec<IbcEventWithHeight>> = Vec::new();
    let mut current: Vec<IbcEventWithHeight> = Vec::new();
    let mut rest = events;
    let ghost taken: Seq<IbcEventWithHeight> = Seq::empty();
    while rest.len() > 0
        invariant
            taken + rest@ == events@,
            ({
                let gs = groups@.map_values(|g: Vec<IbcEventWithHeight>| g@);
                &&& flatten(gs) + current@ == taken
                &&& is_height_grouping(gs)
                &&& current@.len() > 0 ==> all_at_height(current@, current@[0].height)
                &&& current@.len() > 0 && gs.len() > 0 ==> current@[0].height
                    != gs.last()[0].height
                &&& current@.len() == 0 ==> gs.len() == 0
            }),
        decreases rest.len(),
    {
        let e = rest.remove(0);
        let ghost gs0 = groups@.map_values(|g: Vec<IbcEventWithHeight>| g@);
        if current.len() > 0 && current[0].height != e.height {
            let ghost cur = current@;
            groups.push(current);
            current = Vec::new();
            current.push(e);
            proof {
                let gs = groups@.map_values(|g: Vec<IbcEventWithHeight>| g@);
                assert(gs =~= gs0.push(cur));
                assert(gs.drop_last() =~= gs0);
                assert(flatten(gs) == flatten(gs0) + cur);
                assert(current@ =~= seq![e]);
                assert(flatten(gs) + current@ =~= taken.push(e));
                assert forall|k: int| 0 < k < gs.len() implies (#[trigger] gs[k])[0].height
                    != gs[k - 1][0].height by {
                    if k < gs.len() - 1 {
                        assert(gs[k] == gs0[k]);
                        assert(gs[k - 1] == gs0[k - 1]);
                    }
                }
                assert forall|k: int| 0 <= k < gs.len() implies all_at_height(
                    #[trigger] gs[k],
                    gs[k][0].height,
                ) by {
                    if k < gs.len() - 1 {
                        assert(gs[k] == gs0[k]);
                    }
                }
                assert forall|k: int| 0 <= k < gs.len() implies (#[trigger] gs[k]).len() > 0 by {
                    if k < gs.len() - 1 {
                        assert(gs[k] == gs0[k]);
                    }
                }
            }
        } else {
            current.push(e);
            proof {
                assert(flatten(gs0) + current@ =~= taken.push(e));
            }
        }
        proof {
            taken = taken.push(e);
        }
    }
    let ghost gs0 = groups@.map_values(|g: Vec<IbcEventWithHeight>| g@);
    let ghost cur = current@;
    if current.len() > 0 {
        groups.push(current);
        proof {
            let gs = groups@.map_values(|g: Vec<IbcEventWithHeight>| g@);
            assert(gs =~= gs0.push(cur));
            assert(gs.drop_last() =~= gs0);
            assert(flatten(gs) == flatten(gs0) + cur);
            assert forall|k: int| 0 < k < gs.len() implies (#[trigger] gs[k])[0].height
                != gs[k - 1][0].height by {
                if k < gs.len() - 1 {
                    assert(gs[k] == gs0[k]);
                    assert(gs[k - 1] == gs0[k - 1]);
                }
            }
            assert forall|k: int| 0 <= k < gs.len() implies all_at_height(
                #[trigger] gs[k],
                gs[k][0].height,
            ) by {
                if k < gs.len() - 1 {
                    assert(gs[k] == gs0[k]);
                }
            }
            assert forall|k: int| 0 <= k < gs.len() implies (#[trigger] gs[k]).len() > 0 by {
                if k < gs.len() - 1 {
                    assert(gs[k] == gs0[k]);
                }
            }
        }
    } else {
        proof {
            assert(flatten(gs0) =~= flatten(gs0) + cur);
        }
    }
    proof {
        assert(taken =~= events@);
    }
    groups
}

/// Every `NewBlock` event of `s` precedes every other event, and if there is
/// one, `s` starts with it.
pub open spec fn new_block_leads(s: Seq<IbcEventWithHeight>) -> bool {
    &&& forall|i: int, j: int|
        0 <= i < j < s.len() && (#[trigger] s[j]).event.spec_is_new_block()
            ==> (#[trigger] s[i]).event.spec_is_new_block()
    &&& (exists|i: int| 0 <= i < s.len() && (#[trigger] s[i]).event.spec_is_new_block())
        ==> s[0].event.spec_is_new_block()
}

/// A batch published for chain `c`: it carries `c`, holds at least one event,
/// and every event is at the batch's height.
pub open spec fn batch_well_formed(b: EventBatch, c: Seq<char>) -> bool {
    &&& b.chain_id.id@ == c
    &&& b.events@.len() > 0
    &&& all_at_height(b.events@, b.height)
}

/// Placing the `NewBlock` events first puts a `NewBlock` event, if there is
/// any, at index `0` and before every other event, keeps every event, and
/// keeps a common height.
pub proof fn lemma_blocks_first(s: Seq<IbcEventWithHeight>, h: Height)
    ensures
        new_block_leads(blocks_first(s)),
        blocks_first(s).len() == s.len(),
        all_at_height(s, h) ==> all_at_height(blocks_first(s), h),
{
    lemma_split_members(s, h);
    let b = blocks_first(s);
    let nb = new_blocks(s);
    assert forall|i: int, j: int|
        0 <= i < j < b.len() && (#[trigger] b[j]).event.spec_is_new_block() implies (
    #[trigger] b[i]).event.spec_is_new_block() by {
        if j >= nb.len() {
            assert(b[j] == non_blocks(s)[j - nb.len()]);
        }
        assert(b[i] == nb[i]);
    }
    if exists|i: int| 0 <= i < b.len() && (#[trigger] b[i]).event.spec_is_new_block() {
        let i = choose|i: int| 0 <= i < b.len() && (#[trigger] b[i]).event.spec_is_new_block();
        if i >= nb.len() {
            assert(b[i] == non_blocks(s)[i - nb.len()]);
        }
        assert(b[0] == nb[0]);
    }
    if all_at_height(s, h) {
        assert forall|i: int| 0 <= i < b.len() implies (#[trigger] b[i]).height == h by {
            if i < nb.len() {
                assert(b[i] == nb[i]);
            } else {
                assert(b[i] == non_blocks(s)[i - nb.len()]);
            }
        }
    }
}

/// Builds the batch of one height group: the events are reordered so that
/// `NewBlock` comes first.
pub fn assemble_batch(chain_id: &ChainId, group: Vec<IbcEventWithHeight>, tracking_id: TrackingId) -> (b: EventBatch)
    requires
        group@.len() > 0,
        all_at_height(group@, group@[0].height),
    ensures
        b.chain_id.id@ == chain_id.id@,
        b.height == group@[0].height,
        b.tracking_id == tracking_id,
        b.events@ == blocks_first(group@),
        batch_well_formed(b, chain_id.id@),
        new_block_leads(b.events@),
{
    let height = group[0].height;
    proof {
        lemma_blocks_first(group@, height);
    }
    let events = sort_events(group);
    EventBatch { chain_id: chain_id.duplicate(), height, tracking_id, events }
}

/// The tracking id `k` places after `first`, wrapping around after
/// `u64::MAX`.
pub open spec fn id_after(first: u64, k: int) -> u64 {
    ((first + k) % 0x1_0000_0000_0000_0000) as u64
}

proof fn lemma_id_step(first: u64, k: int)
    requires
        0 <= k,
    ensures
        id_after(first, k + 1) == vstd::wrapping::u64_specs::wrapping_add(id_after(first, k), 1),
        id_after(first, 0) == first,
{
    let m: int = 0x1_0000_0000_0000_0000;
    let x: int = first + k;
    assert((x + 1) % m == (if x % m + 1 == m {
        0
    } else {
        x % m + 1
    })) by (nonlinear_arith)
        requires
            m == 0x1_0000_0000_0000_0000,
            x >= 0,
    ;
}

pub proof fn lemma_id_jump(first: u64, n: u64)
    ensures
        id_after(first, n as int) == vstd::wrapping::u64_specs::wrapping_add(first, n),
{
    let m: int = 0x1_0000_0000_0000_0000;
    let x: int = first + n;
    assert(x % m == (if x >= m {
        x - m
    } else {
        x
    })) by (nonlinear_arith)
        requires
            m == 0x1_0000_0000_0000_0000,
            0 <= x < 2 * m,
    ;
}

/// Builds one batch per group, with consecutive tracking ids starting at
/// `first_id`, wrapping around after `u64::MAX`.
pub fn batches_from_groups(chain_id: &ChainId, groups: Vec<Vec<IbcEventWithHeight>>, first_id: u64) -> (r: Vec<EventBatch>)
    requires
        is_height_grouping(groups@.map_values(|g: Vec<IbcEventWithHeight>| g@)),
    ensures
        r@.len() == groups@.len(),
        forall|k: int|
            0 <= k < r@.len() ==> (#[trigger] r@[k]).events@ == blocks_first(groups@[k]@)
                && r@[k].height == groups@[k]@[0].height,
        forall|k: int|
            0 <= k < r@.len() ==> batch_well_formed(#[trigger] r@[k], chain_id.id@)
                && new_block_leads(r@[k].events@) && r@[k].tracking_id.value == id_after(first_id, k),
{
    let ghost gs = groups@.map_values(|g: Vec<IbcEventWithHeight>| g@);
    let mut rest = groups;
    let mut out: Vec<EventBatch> = Vec::new();
    let mut next: u64 = first_id;
    proof {
        lemma_id_step(first_id, 0);
    }
    while rest.len() > 0
        invariant
            rest@.len() + out@.len() == gs.len(),
            next == id_after(first_id, out@.len() as int),
            is_height_grouping(gs),
            forall|k: int| 0 <= k < rest@.len() ==> (#[trigger] rest@[k])@ == gs[out@.len() + k],
            forall|k: int|
                0 <= k < out@.len() ==> (#[trigger] out@[k]).events@ == blocks_first(gs[k])
                    && out@[k].height == gs[k][0].height,
            forall|k: int|
                0 <= k < out@.len() ==> batch_well_formed(#[trigger] out@[k], chain_id.id@)
                    && new_block_leads(out@[k].events@) && out@[k].tracking_id.value == id_after(first_id, k),
        decreases rest.len(),
    {
        let ghost done = out@.len() as int;
        let ghost before = rest@;
        let group = rest.remove(0);
        assert(group@ == gs[done]);
        assert(gs[done].len() > 0);
        let b = assemble_batch(chain_id, group, TrackingId { value: next });
        out.push(b);
        proof {
            lemma_id_step(first_id, done);
        }
        next = next.wrapping_add(1);
        assert forall|k: int| 0 <= k < rest@.len() implies (#[trigger] rest@[k])@ == gs[out@.len() + k] by {
            assert(rest@[k] == before[k + 1]);
        }
    }
    out
}

/// A prefix of a height grouping is a height grouping.
pub proof fn lemma_grouping_prefix(gs: Seq<Seq<IbcEventWithHeight>>)
    requires
        is_height_grouping(gs),
        gs.len() > 0,
    ensures
        is_height_grouping(gs.drop_last()),
        flatten(gs) == flatten(gs.drop_last()) + gs.last(),
{
    let p = gs.drop_last();
    assert forall|k: int| 0 <= k < p.len() implies (#[trigger] p[k]).len() > 0 by {
        assert(p[k] == gs[k]);
    }
    assert forall|k: int| 0 <= k < p.len() implies all_at_height(#[trigger] p[k], p[k][0].height) by {
        assert(p[k] == gs[k]);
    }
    assert forall|k: int| 0 < k < p.len() implies (#[trigger] p[k])[0].height != p[k - 1][0].height by {
        assert(p[k] == gs[k]);
        assert(p[k - 1] == gs[k - 1]);
    }
}

/// Turns a stream of events into per-height batches for chain `chain_id`:
/// each maximal run of events of equal height becomes one batch, with the
/// `NewBlock` event first, and the batches take consecutive tracking ids
/// starting at `first_id`.
pub fn stream_batches(chain_id: &ChainId, events: Vec<IbcEventWithHeight>, first_id: u64) -> (r: Vec<EventBatch>)
    ensures
        exists|groups: Seq<Seq<IbcEventWithHeight>>|
            {
                &&& flatten(groups) == events@
                &&& is_height_grouping(groups)
                &&& groups.len() == r@.len()
                &&& forall|k: int|
                    0 <= k < r@.len() ==> (#[trigger] r@[k]).events@ == blocks_first(groups[k])
                        && r@[k].height == groups[k][0].height
            },
        forall|k: int|
            0 <= k < r@.len() ==> batch_well_formed(#[trigger] r@[k], chain_id.id@)
                && new_block_leads(r@[k].events@) && r@[k].tracking_id.value == id_after(first_id, k),
{
    let groups = group_by_height(events);
    let ghost gs = groups@.map_values(|g: Vec<IbcEventWithHeight>| g@);
    let r = batches_from_groups(chain_id, groups, first_id);
    proof {
        assert forall|k: int| 0 <= k < r@.len() implies (#[trigger] r@[k]).events@ == blocks_first(gs[k])
            && r@[k].height == gs[k][0].height by {
            assert(gs[k] == groups@[k]@);
        }
    }
    r
}

} // verus!
