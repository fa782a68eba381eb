use std::sync::Arc;
use vstd::prelude::*;

verus! {

/// Relies on `Arc::clone`: the new pointer shares the value of the old one.
#[verifier::external_body]
fn share<T>(a: &Arc<T>) -> (r: Arc<T>)
    ensures
        r == *a,
{
    Arc::clone(a)
}

/// `q` after `x` arrives at a queue that holds at most `cap` items: when the
/// queue is full its oldest item is dropped.
pub open spec fn push_bounded<A>(q: Seq<A>, x: A, cap: nat) -> Seq<A> {
    if q.len() < cap {
        q.push(x)
    } else {
        q.push(x).drop_first()
    }
}

/// The values that a queue of shared pointers refers to.
pub open spec fn items<T>(q: Seq<Arc<T>>) -> Seq<T> {
    q.map_values(|a: Arc<T>| *a)
}

/// A broadcaster to any number of subscribers, each with a queue of at most
/// `capacity` items.
pub struct EventBus<T> {
    queues: Vec<Vec<Arc<T>>>,
    capacity: usize,
}

impl<T> EventBus<T> {
    /// The queue of each subscriber, oldest item first.
    pub closed spec fn queues(&self) -> Seq<Seq<T>> {
        self.queues@.map_values(|q: Vec<Arc<T>>| items(q@))
    }

    pub closed spec fn capacity(&self) -> nat {
        self.capacity as nat
    }

    pub closed spec fn wf(&self) -> bool {
        &&& self.capacity > 0
        &&& forall|i: int| 0 <= i < self.queues@.len() ==> (#[trigger] self.queues@[i])@.len() <= self.capacity
    }

    pub fn new(capacity: usize) -> (r: EventBus<T>)
        requires
            capacity > 0,
        ensures
            r.wf(),
            r.capacity() == capacity,
            r.queues() == Seq::<Seq<T>>::empty(),
    {
        EventBus { queues: Vec::new(), capacity }
    }

    /// Registers a subscriber, which receives everything broadcast from now
    /// on; returns its index.
    pub fn subscribe(&mut self) -> (r: usize)
        requires
            old(self).wf(),
            old(self).queues().len() < usize::MAX,
        ensures
            final(self).wf(),
            final(self).capacity() == old(self).capacity(),
            r == old(self).queues().len(),
            final(self).queues() == old(self).queues().push(Seq::<T>::empty()),
    {
        let r = self.queues.len();
        let ghost before = self.queues@;
        self.queues.push(Vec::new());
        proof {
            assert(items(Seq::<Arc<T>>::empty()) =~= Seq::<T>::empty());
            assert(self.queues@[r as int]@ == Seq::<Arc<T>>::empty());
            assert forall|i: int| 0 <= i < before.len() implies (#[trigger] self.queues@[i]) == before[i] by {}
            assert(self.queues() =~= old(self).queues().push(Seq::<T>::empty()));
        }
        r
    }

    /// Delivers `item` to every subscriber.
    pub fn broadcast(&mut self, item: Arc<T>)
        requires
            old(self).wf(),
        ensures
            final(self).wf(),
            final(self).capacity() == old(self).capacity(),
            final(self).queues().len() == old(self).queues().len(),
            forall|i: int|
                0 <= i < old(self).queues().len() ==> (#[trigger] final(self).queues()[i]) == push_bounded(
                    old(self).queues()[i],
                    *item,
                    old(self).capacity(),
                ),
    {
        let ghost before = self.queues();
        let ghost cap = self.capacity as nat;
        let mut rest: Vec<Vec<Arc<T>>> = Vec::new();
        std::mem::swap(&mut rest, &mut self.queues);
        let mut done: Vec<Vec<Arc<T>>> = Vec::new();
        while rest.len() > 0
            invariant
                self.capacity == cap,
                cap > 0,
                done@.len() + rest@.len() == before.len(),
                forall|i: int| 0 <= i < rest@.len() ==> items((#[trigger] rest@[i])@) == before[done@.len() + i],
                forall|i: int| 0 <= i < rest@.len() ==> (#[trigger] rest@[i])@.len() <= cap,
                forall|i: int|
                    0 <= i < done@.len() ==> items((#[trigger] done@[i])@) == push_bounded(before[i], *item, cap),
                forall|i: int| 0 <= i < done@.len() ==> (#[trigger] done@[i])@.len() <= cap,
            decreases rest.len(),
        {
            let ghost rest0 = rest@;
            let mut q = rest.remove(0);
            let ghost q0 = q@;
            q.push(share(&item));
            if q.len() > self.capacity {
                q.remove(0);
            }
            proof {
                assert(items(q0) == before[done@.len() as int]);
                assert(items(q@) =~= push_bounded(items(q0), *item, cap));
            }
            done.push(q);
            assert forall|i: int| 0 <= i < rest@.len() implies items((#[trigger] rest@[i])@) == before[done@.len() + i] by {
                assert(rest@[i] == rest0[i + 1]);
            }
            assert forall|i: int| 0 <= i < rest@.len() implies (#[trigger] rest@[i])@.len() <= cap by {
                assert(rest@[i] == rest0[i + 1]);
            }
        }
        self.queues = done;
        proof {
            assert forall|i: int| 0 <= i < before.len() implies (#[trigger] self.queues()[i]) == push_bounded(
                before[i],
                *item,
                cap,
            ) by {
                assert(self.queues()[i] == items(done@[i]@));
            }
        }
    }

    /// Takes the oldest item of subscriber `idx`, if any.
    pub fn receive(&mut self, idx: usize) -> (r: Option<Arc<T>>)
        requires
            old(self).wf(),
            idx < old(self).queues().len(),
        ensures
            final(self).wf(),
            final(self).capacity() == old(self).capacity(),
            final(self).queues().len() == old(self).queues().len(),
            old(self).queues()[idx as int].len() == 0 ==> r is None && final(self).queues() == old(self).queues(),
            old(self).queues()[idx as int].len() > 0 ==> r is Some && *r->0 == old(self).queues()[idx as int][0]
                && final(self).queues() == old(self).queues().update(
                idx as int,
                old(self).queues()[idx as int].drop_first(),
            ),
    {
        if self.queues[idx].len() == 0 {
            return None;
        }
        let ghost before = self.queues();
        let mut rest: Vec<Vec<Arc<T>>> = Vec::new();
        std::mem::swap(&mut rest, &mut self.queues);
        let mut done: Vec<Vec<Arc<T>>> = Vec::new();
        let mut out: Option<Arc<T>> = None;
        while rest.len() > 0
            invariant
                done@.len() + rest@.len() == before.len(),
                idx < before.len(),
                before[idx as int].len() > 0,
                self.capacity > 0,
                forall|i: int| 0 <= i < rest@.len() ==> items((#[trigger] rest@[i])@) == before[done@.len() + i],
                forall|i: int| 0 <= i < rest@.len() ==> (#[trigger] rest@[i])@.len() <= self.capacity,
                forall|i: int|
                    0 <= i < done@.len() ==> items((#[trigger] done@[i])@) == (if i == idx {
                        before[i].drop_first()
                    } else {
                        before[i]
                    }),
                forall|i: int| 0 <= i < done@.len() ==> (#[trigger] done@[i])@.len() <= self.capacity,
                done@.len() > idx ==> out is Some && *out->0 == before[idx as int][0],
            decreases rest.len(),
        {
            let ghost rest0 = rest@;
            let mut q = rest.remove(0);
            let ghost q0 = q@;
            if done.len() == idx {
                let x = q.remove(0);
                out = Some(x);
                proof {
                    assert(items(q0) == before[idx as int]);
                    assert(items(q@) =~= before[idx as int].drop_first());
                }
            }
            done.push(q);
            assert forall|i: int| 0 <= i < rest@.len() implies items((#[trigger] rest@[i])@) == before[done@.len() + i] by {
                assert(rest@[i] == rest0[i + 1]);
            }
            assert forall|i: int| 0 <= i < rest@.len() implies (#[trigger] rest@[i])@.len() <= self.capacity by {
                assert(rest@[i] == rest0[i + 1]);
            }
        }
        self.queues = done;
        proof {
            assert forall|i: int| 0 <= i < before.len() implies (#[trigger] self.queues()[i]) == before.update(
                idx as int,
                before[idx as int].drop_first(),
            )[i] by {
                assert(self.queues()[i] == items(done@[i]@));
            }
            assert(self.queues() =~= before.update(idx as int, before[idx as int].drop_first()));
        }
        out
    }
}

} // verus!
