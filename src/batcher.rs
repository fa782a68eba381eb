use vstd::prelude::*;
use crate::events::flatten;
use crate::sender::RelayError;

verus! {

/// Bounds of one transaction of the message batcher.
#[derive(Clone, Copy, Debug, PartialEq, Eq, Structural)]
pub struct BatchConfig {
    pub max_message_count: usize,
    pub max_tx_size: usize,
    pub max_delay_ms: u64,
}

/// The number of messages of one submission and their estimated size.
#[derive(Clone, Copy, Debug, PartialEq, Eq, Structural)]
pub struct UnitSize {
    pub message_count: usize,
    pub byte_size: usize,
}

pub open spec fn count_sum(units: Seq<UnitSize>) -> int
    decreases units.len(),
{
    if units.len() == 0 {
        0
    } else {
        count_sum(units.drop_last()) + units.last().message_count
    }
}

pub open spec fn size_sum(units: Seq<UnitSize>) -> int
    decreases units.len(),
{
    if units.len() == 0 {
        0
    } else {
        size_sum(units.drop_last()) + units.last().byte_size
    }
}

/// The first `n` units fit in one transaction.
pub open spec fn fits(units: Seq<UnitSize>, n: int, config: BatchConfig) -> bool {
    &&& count_sum(units.subrange(0, n)) <= config.max_message_count
    &&& size_sum(units.subrange(0, n)) <= config.max_tx_size
}

/// `n` units from the front make the next transaction: as many as fit
/// within the bounds, and at least one, so that a unit that exceeds the
/// bounds alone is still sent alone.
pub open spec fn is_plan(units: Seq<UnitSize>, n: int, config: BatchConfig) -> bool {
    if units.len() == 0 {
        n == 0
    } else {
        &&& 1 <= n <= units.len()
        &&& n == 1 || fits(units, n, config)
        &&& n == units.len() || !fits(units, n + 1, config)
    }
}

/// How many of the pending units, taken from the front, go into the next
/// transaction.
pub fn plan_batch(units: &Vec<UnitSize>, config: &BatchConfig) -> (r: usize)
    ensures
        is_plan(units@, r as int, *config),
{
    if units.len() == 0 {
        return 0;
    }
    let mut n: usize = 1;
    let mut count: usize = units[0].message_count;
    let mut size: usize = units[0].byte_size;
    proof {
        lemma_sum_one(units@.subrange(0, 1));
    }
    while n < units.len()
        invariant
            1 <= n <= units@.len(),
            count == count_sum(units@.subrange(0, n as int)),
            size == size_sum(units@.subrange(0, n as int)),
            n == 1 || fits(units@, n as int, *config),
        decreases units@.len() - n,
    {
        let u = units[n];
        proof {
            assert(units@.subrange(0, n + 1).drop_last() =~= units@.subrange(0, n as int));
        }
        if u.message_count > config.max_message_count || count > config.max_message_count
            - u.message_count || u.byte_size > config.max_tx_size || size > config.max_tx_size
            - u.byte_size {
            return n;
        }
        count = count + u.message_count;
        size = size + u.byte_size;
        n = n + 1;
    }
    n
}

/// The offset of unit `i` in the concatenated messages.
pub open spec fn offset(counts: Seq<usize>, i: int) -> int
    decreases i,
{
    if i <= 0 {
        0
    } else {
        offset(counts, i - 1) + counts[i - 1]
    }
}

proof fn lemma_offset_monotone(counts: Seq<usize>, i: int, j: int)
    requires
        0 <= i <= j,
    ensures
        offset(counts, i) <= offset(counts, j),
    decreases j - i,
{
    if i < j {
        lemma_offset_monotone(counts, i, j - 1);
    }
}

/// Concatenates the messages of the units, in order, and records how many
/// each contributed.
pub fn collect_messages<M>(units: Vec<Vec<M>>) -> (r: (Vec<M>, Vec<usize>))
    ensures
        r.0@ == flatten(units@.map_values(|u: Vec<M>| u@)),
        r.1@.len() == units@.len(),
        forall|i: int| 0 <= i < units@.len() ==> #[trigger] r.1@[i] == units@[i]@.len(),
        forall|i: int| 0 <= i <= units@.len() ==> offset(r.1@, i) == flatten(
            units@.map_values(|u: Vec<M>| u@).subrange(0, i),
        ).len(),
{
    let ghost all = units@.map_values(|u: Vec<M>| u@);
    let mut msgs: Vec<M> = Vec::new();
    let mut counts: Vec<usize> = Vec::new();
    let mut rest = units;
    let ghost mut done: int = 0;
    proof {
        assert(all.subrange(0, 0) =~= Seq::<Seq<M>>::empty());
    }
    while rest.len() > 0
        invariant
            0 <= done <= all.len(),
            all.len() == units@.len(),
            rest@.len() == all.len() - done,
            counts@.len() == done,
            forall|i: int| 0 <= i < rest@.len() ==> (#[trigger] rest@[i])@ == all[done + i],
            forall|i: int| 0 <= i < done ==> #[trigger] counts@[i] == all[i].len(),
            forall|i: int| 0 <= i <= done ==> offset(counts@, i) == flatten(all.subrange(0, i)).len(),
            msgs@ == flatten(all.subrange(0, done)),
        decreases rest.len(),
    {
        let ghost before = rest@;
        let ghost c0 = counts@;
        let mut u = rest.remove(0);
        proof {
            assert(u@ == all[done]);
            assert(all.subrange(0, done + 1).drop_last() =~= all.subrange(0, done));
        }
        counts.push(u.len());
        msgs.append(&mut u);
        proof {
            assert forall|i: int| 0 <= i <= done + 1 implies offset(counts@, i) == flatten(
                all.subrange(0, i),
            ).len() by {
                if i == done + 1 {
                    lemma_offset_prefix(c0, counts@, done);
                    assert(all.subrange(0, i).drop_last() =~= all.subrange(0, done));
                    assert(all.subrange(0, i).last() == all[done]);
                } else {
                    lemma_offset_prefix(c0, counts@, i);
                }
            }
            done = done + 1;
            assert forall|i: int| 0 <= i < rest@.len() implies (#[trigger] rest@[i])@ == all[done + i] by {
                assert(rest@[i] == before[i + 1]);
            }
        }
    }
    proof {
        assert(all.subrange(0, done) =~= all);
    }
    (msgs, counts)
}

proof fn lemma_offset_prefix(a: Seq<usize>, b: Seq<usize>, i: int)
    requires
        a.len() < b.len(),
        0 <= i <= a.len() + 1,
        i <= b.len(),
        forall|k: int| 0 <= k < a.len() ==> a[k] == b[k],
    ensures
        i <= a.len() ==> offset(a, i) == offset(b, i),
    decreases i,
{
    if i > 0 && i <= a.len() {
        lemma_offset_prefix(a, b, i - 1);
    }
}

/// Hands the event lists of one transaction back to its contributors: unit
/// `i` gets the `counts[i]` lists that follow those of the units before it.
/// A transaction that returned another number of lists than it had messages
/// fails for every unit alike.
pub fn route_events<E>(events: Vec<Vec<E>>, counts: &Vec<usize>) -> (r: Result<
    Vec<Vec<Vec<E>>>,
    RelayError,
>)
    requires
        offset(counts@, counts@.len() as int) <= usize::MAX,
    ensures
        events@.len() == offset(counts@, counts@.len() as int) <==> (r is Ok),
        r matches Err(e) ==> e == (RelayError::MismatchIbcEventsCount {
            expected: offset(counts@, counts@.len() as int) as usize,
            actual: events@.len() as usize,
        }),
        r matches Ok(v) ==> v@.len() == counts@.len() && forall|i: int|
            0 <= i < counts@.len() ==> (#[trigger] v@[i])@ == events@.subrange(
                offset(counts@, i),
                offset(counts@, i + 1),
            ),
{
    let mut expected: usize = 0;
    let mut k: usize = 0;
    while k < counts.len()
        invariant
            0 <= k <= counts@.len(),
            expected == offset(counts@, k as int),
            offset(counts@, counts@.len() as int) <= usize::MAX,
        decreases counts@.len() - k,
    {
        proof {
            lemma_offset_monotone(counts@, k + 1, counts@.len() as int);
        }
        expected = expected + counts[k];
        k = k + 1;
    }
    if events.len() != expected {
        let actual = events.len();
        return Err(RelayError::MismatchIbcEventsCount { expected, actual });
    }
    let ghost all = events@;
    let mut rest = events;
    let mut out: Vec<Vec<Vec<E>>> = Vec::new();
    let mut i: usize = 0;
    while i < counts.len()
        invariant
            0 <= i <= counts@.len(),
            out@.len() == i,
            all.len() == offset(counts@, counts@.len() as int),
            rest@ == all.subrange(offset(counts@, i as int), all.len() as int),
            forall|j: int|
                0 <= j < i ==> (#[trigger] out@[j])@ == all.subrange(offset(counts@, j), offset(counts@, j + 1)),
        decreases counts@.len() - i,
    {
        proof {
            lemma_offset_monotone(counts@, i + 1, counts@.len() as int);
            lemma_offset_monotone(counts@, 0, i as int);
        }
        let c = counts[i];
        let mut part: Vec<Vec<E>> = Vec::new();
        let mut t: usize = 0;
        while t < c
            invariant
                0 <= t <= c,
                c == counts@[i as int],
                i < counts@.len(),
                offset(counts@, i + 1) <= all.len(),
                0 <= offset(counts@, i as int),
                offset(counts@, i + 1) == offset(counts@, i as int) + c,
                part@ == all.subrange(offset(counts@, i as int), offset(counts@, i as int) + t),
                rest@ == all.subrange(offset(counts@, i as int) + t, all.len() as int),
            decreases c - t,
        {
            let ghost r0 = rest@;
            let x = rest.remove(0);
            assert(x == all[offset(counts@, i as int) + t]);
            part.push(x);
            t = t + 1;
            proof {
                assert(part@ =~= all.subrange(offset(counts@, i as int), offset(counts@, i as int) + t));
                assert(rest@ =~= all.subrange(offset(counts@, i as int) + t, all.len() as int));
            }
        }
        out.push(part);
        i = i + 1;
    }
    Ok(out)
}

/// Two submissions of one producer, taken in order into one transaction,
/// get back contiguous runs of event lists as long as their message lists,
/// in the order in which they were submitted.
pub proof fn lemma_routing_keeps_order(counts: Seq<usize>, i: int, j: int)
    requires
        0 <= i < j < counts.len(),
    ensures
        offset(counts, i + 1) - offset(counts, i) == counts[i],
        offset(counts, j + 1) - offset(counts, j) == counts[j],
        offset(counts, i + 1) <= offset(counts, j),
        0 <= offset(counts, i),
{
    lemma_offset_monotone(counts, i + 1, j);
    lemma_offset_monotone(counts, 0, i);
}

/// Two submissions of one producer taken one after the other into a
/// transaction get back, in order, a contiguous run of the transaction's
/// event lists: the first run as long as the first submission, the second
/// as long as the second.
pub proof fn lemma_two_submissions<E>(events: Seq<Vec<E>>, counts: Seq<usize>, parts: Seq<Seq<Vec<E>>>, i: int)
    requires
        0 <= i,
        i + 1 < counts.len(),
        events.len() == offset(counts, counts.len() as int),
        parts.len() == counts.len(),
        forall|k: int|
            0 <= k < counts.len() ==> #[trigger] parts[k] == events.subrange(offset(counts, k), offset(counts, k + 1)),
    ensures
        parts[i].len() == counts[i],
        parts[i + 1].len() == counts[i + 1],
        parts[i] + parts[i + 1] == events.subrange(
            offset(counts, i),
            offset(counts, i) + counts[i] + counts[i + 1],
        ),
{
    lemma_offset_monotone(counts, 0, i);
    lemma_offset_monotone(counts, i + 2, counts.len() as int);
    assert(parts[i] + parts[i + 1] =~= events.subrange(
        offset(counts, i),
        offset(counts, i) + counts[i] + counts[i + 1],
    ));
}

/// Whether the pending buffer must be sent now: it is full, or its oldest
/// message has waited `max_delay_ms`.
pub fn should_flush(pending: &Vec<UnitSize>, waited_ms: u64, config: &BatchConfig) -> (r: bool)
    ensures
        r == (pending@.len() > 0 && (waited_ms >= config.max_delay_ms || !fits(
            pending@,
            pending@.len() as int,
            *config,
        ))),
{
    if pending.len() == 0 {
        return false;
    }
    if waited_ms >= config.max_delay_ms {
        return true;
    }
    let n = plan_batch(pending, config);
    if n < pending.len() {
        proof {
            lemma_fits_prefix(pending@, *config, n + 1, pending@.len() as int);
        }
        return true;
    }
    if n == 1 {
        let u = pending[0];
        proof {
            lemma_sum_one(pending@.subrange(0, 1));
        }
        return u.message_count > config.max_message_count || u.byte_size > config.max_tx_size;
    }
    false
}

proof fn lemma_sum_one(s: Seq<UnitSize>)
    requires
        s.len() == 1,
    ensures
        count_sum(s) == s[0].message_count,
        size_sum(s) == s[0].byte_size,
{
    assert(s.drop_last() =~= Seq::<UnitSize>::empty());
    assert(count_sum(s.drop_last()) == 0);
    assert(size_sum(s.drop_last()) == 0);
}

proof fn lemma_sums_monotone(units: Seq<UnitSize>, a: int, b: int)
    requires
        0 <= a <= b <= units.len(),
    ensures
        count_sum(units.subrange(0, a)) <= count_sum(units.subrange(0, b)),
        size_sum(units.subrange(0, a)) <= size_sum(units.subrange(0, b)),
    decreases b - a,
{
    if a < b {
        assert(units.subrange(0, b).drop_last() =~= units.subrange(0, b - 1));
        lemma_sums_monotone(units, a, b - 1);
    }
}

proof fn lemma_fits_prefix(units: Seq<UnitSize>, config: BatchConfig, a: int, b: int)
    requires
        0 <= a <= b <= units.len(),
        !fits(units, a, config),
    ensures
        !fits(units, b, config),
{
    lemma_sums_monotone(units, a, b);
}

/// The submissions waiting for a transaction, oldest first.
pub struct BatchQueue<M> {
    units: Vec<Vec<M>>,
    sizes: Vec<UnitSize>,
}

impl<M> BatchQueue<M> {
    /// The messages of each waiting submission.
    pub closed spec fn units(&self) -> Seq<Seq<M>> {
        self.units@.map_values(|u: Vec<M>| u@)
    }

    pub closed spec fn sizes(&self) -> Seq<UnitSize> {
        self.sizes@
    }

    pub closed spec fn wf(&self) -> bool {
        &&& self.units@.len() == self.sizes@.len()
        &&& forall|i: int|
            0 <= i < self.units@.len() ==> (#[trigger] self.sizes@[i]).message_count == self.units@[i]@.len()
    }

    pub fn new() -> (r: Self)
        ensures
            r.wf(),
            r.units() == Seq::<Seq<M>>::empty(),
    {
        BatchQueue { units: Vec::new(), sizes: Vec::new() }
    }

    pub fn len(&self) -> (r: usize)
        ensures
            r == self.units().len(),
    {
        self.units.len()
    }

    /// Whether the waiting submissions must be sent now.
    pub fn should_flush(&self, waited_ms: u64, config: &BatchConfig) -> (r: bool)
        requires
            self.wf(),
        ensures
            r == (self.sizes().len() > 0 && (waited_ms >= config.max_delay_ms || !fits(
                self.sizes(),
                self.sizes().len() as int,
                *config,
            ))),
    {
        should_flush(&self.sizes, waited_ms, config)
    }

    /// Queues the messages of one submission, of estimated size `byte_size`.
    pub fn submit(&mut self, messages: Vec<M>, byte_size: usize)
        requires
            old(self).wf(),
        ensures
            final(self).wf(),
            final(self).units() == old(self).units().push(messages@),
            final(self).sizes() == old(self).sizes().push(
                UnitSize { message_count: messages@.len() as usize, byte_size },
            ),
    {
        let ghost m = messages@;
        let size = UnitSize { message_count: messages.len(), byte_size };
        self.units.push(messages);
        self.sizes.push(size);
        proof {
            assert(self.units() =~= old(self).units().push(m));
        }
    }

    /// Takes the submissions of the next transaction from the front: their
    /// messages in order, and how many each contributed.
    pub fn take_batch(&mut self, config: &BatchConfig) -> (r: (Vec<M>, Vec<usize>))
        requires
            old(self).wf(),
        ensures
            final(self).wf(),
            is_plan(old(self).sizes(), r.1@.len() as int, *config),
            final(self).units() == old(self).units().subrange(r.1@.len() as int, old(self).units().len() as int),
            final(self).sizes() == old(self).sizes().subrange(r.1@.len() as int, old(self).sizes().len() as int),
            r.0@ == flatten(old(self).units().subrange(0, r.1@.len() as int)),
            forall|i: int| 0 <= i < r.1@.len() ==> #[trigger] r.1@[i] == old(self).units()[i].len(),
    {
        let n = plan_batch(&self.sizes, config);
        let ghost us = self.units();
        let ghost ss = self.sizes@;
        let mut taken: Vec<Vec<M>> = Vec::new();
        let mut i: usize = 0;
        while i < n
            invariant
                n <= us.len(),
                us.len() == ss.len(),
                i <= n,
                taken@.len() == i,
                forall|k: int| 0 <= k < i ==> (#[trigger] taken@[k])@ == us[k],
                self.units@.len() == us.len() - i,
                self.units@.map_values(|u: Vec<M>| u@) == us.subrange(i as int, us.len() as int),
                self.sizes@ == ss.subrange(i as int, ss.len() as int),
            decreases n - i,
        {
            let ghost u0 = self.units@;
            let u = self.units.remove(0);
            self.sizes.remove(0);
            proof {
                assert(u0.map_values(|u: Vec<M>| u@)[0] == us[i as int]);
            }
            taken.push(u);
            i = i + 1;
            proof {
                assert(self.units@.map_values(|u: Vec<M>| u@) =~= us.subrange(i as int, us.len() as int)) by {
                    assert forall|k: int| 0 <= k < self.units@.len() implies self.units@.map_values(
                        |u: Vec<M>| u@,
                    )[k] == us.subrange(i as int, us.len() as int)[k] by {
                        assert(self.units@[k] == u0[k + 1]);
                        assert(u0.map_values(|u: Vec<M>| u@)[k + 1] == us[i + k]);
                    }
                }
                assert(self.sizes@ =~= ss.subrange(i as int, ss.len() as int));
            }
        }
        proof {
            assert(taken@.map_values(|u: Vec<M>| u@) =~= us.subrange(0, n as int));
            assert forall|k: int| 0 <= k < self.units@.len() implies (#[trigger] self.sizes@[k]).message_count
                == self.units@[k]@.len() by {
                assert(self.sizes@[k] == ss[k + n]);
                assert(self.units@.map_values(|u: Vec<M>| u@)[k] == us[k + n]);
                assert(old(self).units@[k + n]@ == us[k + n]);
            }
        }
        let r = collect_messages(taken);
        proof {
            assert(r.1@.len() == n);
        }
        r
    }
}

} // verus!
