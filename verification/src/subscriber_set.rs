//! The subscriber set of one event kind: a dense table of pending-event
//! queues, one per live subscriber, keyed by slot index (the subscriber's
//! handle). Freed slots are recycled for later subscribers. Broadcasting
//! appends a copy of the event to every live queue and never blocks on, or
//! fails for, any subscriber.

use vstd::prelude::*;

use crate::slots::{count_live, lemma_count_live_push, lemma_count_live_take_step,
    lemma_count_live_update, live, slot_filled};

verus! {

/// `post` is `pre` with `e` appended to every live queue; free slots stay free.
pub open spec fn broadcast_to<T>(pre: Seq<Option<Seq<T>>>, e: T) -> Seq<Option<Seq<T>>> {
    Seq::new(
        pre.len(),
        |i: int|
            match pre[i] {
                Some(q) => Some(q.push(e)),
                None => None,
            },
    )
}

/// The delivery state of one event kind: slot `h` holds the queue of events
/// broadcast to subscriber `h` and not yet taken by it, or `None` if the
/// handle `h` is currently free.
pub struct SubscriberSet<T> {
    slots: Vec<Option<Vec<T>>>,
}

impl<T> View for SubscriberSet<T> {
    type V = Seq<Option<Seq<T>>>;

    closed spec fn view(&self) -> Seq<Option<Seq<T>>> {
        Seq::new(
            self.slots@.len(),
            |i: int|
                match self.slots@[i] {
                    Some(q) => Some(q@),
                    None => None,
                },
        )
    }
}

impl<T: Copy> SubscriberSet<T> {
    /// A set with no subscribers.
    pub fn new() -> (s: Self)
        ensures
            s@ == Seq::<Option<Seq<T>>>::empty(),
    {
        let s = SubscriberSet { slots: Vec::new() };
        proof {
            assert(s@ =~= Seq::<Option<Seq<T>>>::empty());
        }
        s
    }

    /// Registers a new subscriber: fills a free slot (recycling the first freed
    /// one, or growing the table) with an empty queue and returns its handle.
    /// The handle is unique among the live subscribers, and every other slot is
    /// left exactly as it was.
    pub fn insert(&mut self) -> (h: usize)
        ensures
            slot_filled(old(self)@, final(self)@, h as int, Seq::<T>::empty()),
            live(final(self)@, h as int),
            count_live(final(self)@) == count_live(old(self)@) + 1,
    {
        let n = self.slots.len();
        let mut i: usize = 0;
        while i < n
            invariant
                i <= n,
                n == self.slots.len(),
                self == old(self),
                forall|j: int| 0 <= j < i ==> self@[j] is Some,
            decreases n - i,
        {
            if self.slots[i].is_none() {
                self.slots[i] = Some(Vec::new());
                proof {
                    assert(final(self)@ =~= old(self)@.update(i as int, Some(Seq::<T>::empty())));
                    lemma_count_live_update(old(self)@, i as int, Some(Seq::<T>::empty()));
                }
                return i;
            }
            i += 1;
        }
        self.slots.push(Some(Vec::new()));
        proof {
            assert(final(self)@ =~= old(self)@.push(Some(Seq::<T>::empty())));
            lemma_count_live_push(old(self)@, Some(Seq::<T>::empty()));
        }
        n
    }

    /// Unregisters the subscriber `h`: frees its slot and discards its pending
    /// queue. Every other slot is left exactly as it was, and the live count
    /// drops by exactly one. Removing a handle twice, or a handle never handed
    /// out, is a caller error ruled out by the precondition.
    pub fn remove(&mut self, h: usize)
        requires
            live(old(self)@, h as int),
        ensures
            final(self)@ == old(self)@.update(h as int, None),
            count_live(final(self)@) + 1 == count_live(old(self)@),
    {
        self.slots[h] = None;
        proof {
            assert(final(self)@ =~= old(self)@.update(h as int, None));
            lemma_count_live_update(old(self)@, h as int, None);
        }
    }

    /// Offers `event` to every live subscriber: appends a copy to each live
    /// queue. No subscriber can block or abort delivery to the others, and
    /// free slots are untouched.
    pub fn broadcast(&mut self, event: T)
        ensures
            final(self)@ == broadcast_to(old(self)@, event),
    {
        let n = self.slots.len();
        let mut h: usize = 0;
        while h < n
            invariant
                h <= n,
                n == self.slots.len(),
                self@.len() == old(self)@.len(),
                forall|j: int| 0 <= j < h ==> self@[j] == broadcast_to(old(self)@, event)[j],
                forall|j: int| h <= j < n ==> self@[j] == old(self)@[j],
            decreases n - h,
        {
            let ghost prev = self.slots@;
            let ghost pre_view = self@;
            let slot = self.slots.remove(h);
            match slot {
                Some(mut q) => {
                    q.push(event);
                    let ghost qvec = q;
                    self.slots.insert(h, Some(q));
                    proof {
                        assert(self.slots@ =~= prev.update(h as int, Some(qvec)));
                        assert(self@ =~= pre_view.update(h as int, Some(qvec@)));
                    }
                },
                None => {
                    self.slots.insert(h, None);
                    proof {
                        assert(self.slots@ =~= prev.update(h as int, None));
                        assert(self@ =~= pre_view.update(h as int, None::<Seq<T>>));
                    }
                },
            }
            h += 1;
        }
        proof {
            assert(final(self)@ =~= broadcast_to(old(self)@, event));
        }
    }

    /// Hands subscriber `h` the oldest event broadcast to it that it has not
    /// taken yet, or `None` if nothing is pending. Events come out in exactly
    /// the order they were broadcast.
    pub fn take_next(&mut self, h: usize) -> (e: Option<T>)
        requires
            live(old(self)@, h as int),
        ensures
            ({
                let q = old(self)@[h as int]->Some_0;
                if q.len() > 0 {
                    &&& e == Some(q[0])
                    &&& final(self)@ == old(self)@.update(h as int, Some(q.drop_first()))
                } else {
                    &&& e is None
                    &&& final(self)@ == old(self)@
                }
            }),
            live(final(self)@, h as int),
            count_live(final(self)@) == count_live(old(self)@),
    {
        let slot = self.slots.remove(h);
        let r = match slot {
            Some(mut q) => {
                let e = if q.len() > 0 {
                    Some(q.remove(0))
                } else {
                    None
                };
                self.slots.insert(h, Some(q));
                e
            },
            None => {
                proof {
                    assert(false);
                }
                self.slots.insert(h, None);
                None
            },
        };
        proof {
            let q = old(self)@[h as int]->Some_0;
            if q.len() > 0 {
                assert(final(self)@ =~= old(self)@.update(h as int, Some(q.drop_first())));
                lemma_count_live_update(old(self)@, h as int, Some(q.drop_first()));
            } else {
                assert(final(self)@ =~= old(self)@);
            }
        }
        r
    }

    /// The number of currently live subscribers.
    pub fn live_count(&self) -> (n: usize)
        ensures
            n as nat == count_live(self@),
    {
        let len = self.slots.len();
        let mut c: usize = 0;
        let mut i: usize = 0;
        while i < len
            invariant
                i <= len,
                c <= i,
                len == self.slots.len(),
                c as nat == count_live(self@.take(i as int)),
            decreases len - i,
        {
            proof {
                lemma_count_live_take_step(self@, i as int);
            }
            if self.slots[i].is_some() {
                c += 1;
            }
            i += 1;
        }
        proof {
            assert(self@.take(len as int) =~= self@);
        }
        c
    }
}

} // verus!
