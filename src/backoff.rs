use vstd::prelude::*;

verus! {

/// First delay of a reconnection episode, in milliseconds.
pub const RECONNECT_INITIAL_DELAY_MS: u64 = 1000;

/// Largest single delay between two reconnection attempts, in milliseconds.
pub const RECONNECT_MAX_DELAY_MS: u64 = 60000;

/// Largest total wait of one reconnection episode, in milliseconds.
pub const RECONNECT_TOTAL_CAP_MS: u64 = 600000;

/// The state after `n` steps of a Fibonacci delay sequence started at
/// `init`: the pair (current, next), where a sum that does not fit in `u64`
/// is replaced by `u64::MAX`.
pub open spec fn fib_state(init: u64, n: nat) -> (u64, u64)
    decreases n,
{
    if n == 0 {
        (init, init)
    } else {
        let (c, x) = fib_state(init, (n - 1) as nat);
        if c + x <= u64::MAX {
            (x, (c + x) as u64)
        } else {
            (x, u64::MAX)
        }
    }
}

/// The `n`-th delay (from `0`) of the Fibonacci sequence started at `init`.
pub open spec fn fib_delay(init: u64, n: nat) -> u64 {
    fib_state(init, n).0
}

/// Relies on retry's `Fibonacci` (`from_millis`, then the iterator's
/// `nth`): its delays follow `fib_state`, and it never ends, so `nth` always
/// has a value; the delay is converted back to milliseconds exactly.
#[verifier::external_body]
fn fibonacci_delay(init: u64, n: usize) -> (r: u64)
    ensures
        r == fib_delay(init, n as nat),
{
    retry::delay::Fibonacci::from_millis(init).nth(n).unwrap().as_millis() as u64
}

/// The sum of a sequence of delays.
pub open spec fn total(s: Seq<u64>) -> int
    decreases s.len(),
{
    if s.len() == 0 {
        0
    } else {
        total(s.drop_last()) + s.last()
    }
}

/// A Fibonacci backoff whose single delays are capped at `max_delay` and
/// which ends before the sum of its delays would exceed `max_total`.
pub struct Backoff {
    initial: u64,
    max_delay: u64,
    max_total: u64,
    elapsed: u64,
    exhausted: bool,
    steps: usize,
    given: Ghost<Seq<u64>>,
}

/// What to do after one reconnection attempt.
#[derive(Clone, Copy, Debug, PartialEq, Eq, Structural)]
pub enum RetryDecision {
    /// The attempt succeeded: stop.
    Done,
    /// Wait this many milliseconds, then try again.
    RetryAfter(u64),
    /// The total wait is spent: give up after this many attempts.
    GiveUp(u64),
}

impl Backoff {
    pub closed spec fn max_delay(&self) -> u64 {
        self.max_delay
    }

    pub closed spec fn max_total(&self) -> u64 {
        self.max_total
    }

    /// The first delay of the underlying Fibonacci sequence.
    pub closed spec fn initial(&self) -> u64 {
        self.initial
    }

    /// The delays handed out so far, in order.
    pub closed spec fn delays(&self) -> Seq<u64> {
        self.given@
    }

    pub closed spec fn is_exhausted(&self) -> bool {
        self.exhausted
    }

    /// The delay that comes next, if the caps allow it.
    pub open spec fn next_spec(&self) -> u64 {
        min_u64(fib_delay(self.initial(), self.delays().len()), self.max_delay())
    }

    /// Whether another delay may be handed out: the backoff is not spent,
    /// the next delay keeps the total within its cap, and the count of
    /// delays fits in `usize`.
    pub open spec fn may_retry(&self) -> bool {
        !self.is_exhausted() && total(self.delays()) + self.next_spec() <= self.max_total()
            && self.delays().len() < usize::MAX
    }

    pub closed spec fn wf(&self) -> bool {
        &&& self.steps == self.given@.len()
        &&& self.elapsed == total(self.given@)
        &&& self.elapsed <= self.max_total
        &&& forall|i: int| 0 <= i < self.given@.len() ==> #[trigger] self.given@[i] <= self.max_delay
        &&& forall|i: int|
            0 <= i < self.given@.len() ==> #[trigger] self.given@[i] == min_u64(
                fib_delay(self.initial, i as nat),
                self.max_delay,
            )
    }

    /// A backoff that starts at `initial` milliseconds.
    pub fn new(initial: u64, max_delay: u64, max_total: u64) -> (r: Backoff)
        ensures
            r.wf(),
            r.max_delay() == max_delay,
            r.max_total() == max_total,
            r.initial() == initial,
            r.delays() == Seq::<u64>::empty(),
            !r.is_exhausted(),
    {
        Backoff {
            initial,
            max_delay,
            max_total,
            elapsed: 0,
            exhausted: false,
            steps: 0,
            given: Ghost(Seq::empty()),
        }
    }

    /// The reconnection backoff: 1 s, then Fibonacci, each delay at most
    /// 60 s and at most 10 min in all.
    pub fn reconnect_default() -> (r: Backoff)
        ensures
            r.wf(),
            r.max_delay() == RECONNECT_MAX_DELAY_MS,
            r.max_total() == RECONNECT_TOTAL_CAP_MS,
            r.initial() == RECONNECT_INITIAL_DELAY_MS,
            r.delays() == Seq::<u64>::empty(),
            !r.is_exhausted(),
    {
        Backoff::new(RECONNECT_INITIAL_DELAY_MS, RECONNECT_MAX_DELAY_MS, RECONNECT_TOTAL_CAP_MS)
    }

    /// The next delay, or `None` once the total would exceed the cap.
    pub fn next_delay(&mut self) -> (r: Option<u64>)
        requires
            old(self).wf(),
        ensures
            final(self).wf(),
            final(self).max_delay() == old(self).max_delay(),
            final(self).max_total() == old(self).max_total(),
            final(self).initial() == old(self).initial(),
            ({
                let d = min_u64(
                    fib_delay(old(self).initial(), old(self).delays().len()),
                    old(self).max_delay(),
                );
                if !old(self).may_retry() {
                    &&& r is None
                    &&& final(self).is_exhausted()
                    &&& final(self).delays() == old(self).delays()
                } else {
                    &&& r == Some(d)
                    &&& !final(self).is_exhausted()
                    &&& final(self).delays() == old(self).delays().push(d)
                }
            }),
            r matches Some(d) ==> d <= final(self).max_delay() && total(final(self).delays())
                <= final(self).max_total(),
    {
        if self.exhausted {
            return None;
        }
        let ghost before = self.given@;
        if self.steps == usize::MAX {
            self.exhausted = true;
            return None;
        }
        let raw = fibonacci_delay(self.initial, self.steps);
        let d = if raw < self.max_delay {
            raw
        } else {
            self.max_delay
        };
        if d > self.max_total - self.elapsed {
            self.exhausted = true;
            return None;
        }
        self.elapsed = self.elapsed + d;
        self.given = Ghost(before.push(d));
        self.steps = self.steps + 1;
        proof {
            assert(self.given@.drop_last() =~= before);
            assert forall|i: int| 0 <= i < self.given@.len() implies #[trigger] self.given@[i] == min_u64(
                fib_delay(self.initial, i as nat),
                self.max_delay,
            ) by {
                if i < before.len() {
                    assert(self.given@[i] == before[i]);
                }
            }
        }
        Some(d)
    }

    /// The decision after an attempt: `tries` attempts were made so far.
    pub fn decide(&mut self, succeeded: bool, tries: u64) -> (r: RetryDecision)
        requires
            old(self).wf(),
        ensures
            final(self).wf(),
            final(self).max_delay() == old(self).max_delay(),
            final(self).max_total() == old(self).max_total(),
            succeeded ==> r == RetryDecision::Done && *final(self) == *old(self),
            !succeeded ==> (if !old(self).may_retry() {
                &&& r == RetryDecision::GiveUp(tries)
                &&& final(self).is_exhausted()
                &&& final(self).delays() == old(self).delays()
            } else {
                &&& r == RetryDecision::RetryAfter(old(self).next_spec())
                &&& final(self).delays() == old(self).delays().push(old(self).next_spec())
            }),
    {
        if succeeded {
            return RetryDecision::Done;
        }
        match self.next_delay() {
            Some(d) => RetryDecision::RetryAfter(d),
            None => RetryDecision::GiveUp(tries),
        }
    }
}

pub open spec fn min_u64(a: u64, b: u64) -> u64 {
    if a < b {
        a
    } else {
        b
    }
}

/// No delay of a backoff exceeds its per-attempt cap, and the delays of one
/// episode add up to at most its total cap.
pub proof fn lemma_backoff_bounded(b: Backoff)
    requires
        b.wf(),
    ensures
        forall|i: int| 0 <= i < b.delays().len() ==> #[trigger] b.delays()[i] <= b.max_delay(),
        total(b.delays()) <= b.max_total(),
{
}

/// With the reconnection defaults, no attempt waits more than 60 s and one
/// reconnection episode waits at most 10 min in all.
pub proof fn lemma_reconnect_default_bounded(b: Backoff)
    requires
        b.wf(),
        b.max_delay() == RECONNECT_MAX_DELAY_MS,
        b.max_total() == RECONNECT_TOTAL_CAP_MS,
    ensures
        forall|i: int| 0 <= i < b.delays().len() ==> #[trigger] b.delays()[i] <= 60000,
        total(b.delays()) <= 600000,
{
    lemma_backoff_bounded(b);
}

} // verus!
