//! The event registry: a table from event kind to that kind's subscriber set,
//! created lazily the first time a kind is published or subscribed to and
//! never dropped. All operations go through the kind, so no two entries for
//! one kind can ever exist.

use vstd::prelude::*;

use crate::event::EventKind;
use crate::slots::{count_live, live, slot_filled};
use crate::subscriber_set::{broadcast_to, SubscriberSet};

verus! {

/// The registry after a lookup of `k` that creates an empty subscriber set
/// for it if it was absent, and changes nothing else.
pub open spec fn ensure_kind<T>(
    m: Map<EventKind, Seq<Option<Seq<T>>>>,
    k: EventKind,
) -> Map<EventKind, Seq<Option<Seq<T>>>> {
    if m.contains_key(k) {
        m
    } else {
        m.insert(k, Seq::empty())
    }
}

/// The registry after publishing `e` under kind `k`: the kind's entry exists,
/// every live queue of it has `e` appended, and no other kind is touched.
pub open spec fn publish_transition<T>(
    m: Map<EventKind, Seq<Option<Seq<T>>>>,
    k: EventKind,
    e: T,
) -> Map<EventKind, Seq<Option<Seq<T>>>> {
    let m1 = ensure_kind(m, k);
    m1.insert(k, broadcast_to(m1[k], e))
}

/// The kind-to-subscriber-set table. Its view is the map from each kind ever
/// used to the queues of that kind's subscribers.
pub struct Registry<T> {
    kinds: Vec<EventKind>,
    tables: Vec<SubscriberSet<T>>,
}

impl<T> Registry<T> {
    /// The entries are one per kind: same lengths, no kind twice.
    pub closed spec fn wf(self) -> bool {
        &&& self.kinds@.len() == self.tables@.len()
        &&& forall|i: int, j: int|
            0 <= i < j < self.kinds@.len() ==> self.kinds@[i] != self.kinds@[j]
    }

    spec fn has_kind(self, k: EventKind) -> bool {
        exists|i: int| 0 <= i < self.kinds@.len() && self.kinds@[i] == k
    }

    spec fn idx_of(self, k: EventKind) -> int {
        choose|i: int| 0 <= i < self.kinds@.len() && self.kinds@[i] == k
    }

    /// In a well-formed registry the entry holding `k` is the only one, so its
    /// index is a function of `k`.
    proof fn lemma_idx_of(self, k: EventKind, i: int)
        requires
            self.wf(),
            0 <= i < self.kinds@.len(),
            self.kinds@[i] == k,
        ensures
            self.has_kind(k),
            self.idx_of(k) == i,
    {
        assert(self.has_kind(k));
        let j = self.idx_of(k);
        assert(0 <= j < self.kinds@.len() && self.kinds@[j] == k);
        if j < i {
            assert(self.kinds@[j] != self.kinds@[i]);
        } else if i < j {
            assert(self.kinds@[i] != self.kinds@[j]);
        }
    }

    /// Changing the subscriber table of entry `i` alone moves the view by an
    /// insert at that entry's kind.
    proof fn lemma_view_after_table_update(pre: Self, post: Self, i: int)
        requires
            pre.wf(),
            0 <= i < pre.kinds@.len(),
            post.kinds@ == pre.kinds@,
            post.tables@.len() == pre.tables@.len(),
            forall|j: int|
                0 <= j < pre.tables@.len() && j != i ==> post.tables@[j] == pre.tables@[j],
        ensures
            post.wf(),
            post@ == pre@.insert(pre.kinds@[i], post.tables@[i]@),
    {
        let k = pre.kinds@[i];
        pre.lemma_idx_of(k, i);
        post.lemma_idx_of(k, i);
        let rhs = pre@.insert(k, post.tables@[i]@);
        assert forall|k2: EventKind| post@.contains_key(k2) == rhs.contains_key(k2) by {
            assert(post.has_kind(k2) == pre.has_kind(k2));
        }
        assert forall|k2: EventKind| post@.contains_key(k2) implies post@[k2] == rhs[k2] by {
            if k2 == k {
                assert(post@[k2] == post.tables@[i]@);
            } else {
                let j = pre.idx_of(k2);
                assert(pre.has_kind(k2));
                assert(0 <= j < pre.kinds@.len() && pre.kinds@[j] == k2);
                pre.lemma_idx_of(k2, j);
                post.lemma_idx_of(k2, j);
                assert(j != i);
            }
        }
        assert(post@ =~= rhs);
    }
}

impl<T> View for Registry<T> {
    type V = Map<EventKind, Seq<Option<Seq<T>>>>;

    closed spec fn view(&self) -> Map<EventKind, Seq<Option<Seq<T>>>> {
        Map::new(|k: EventKind| self.has_kind(k), |k: EventKind| self.tables@[self.idx_of(k)]@)
    }
}

impl<T: Copy> Registry<T> {
    /// A registry with no kinds yet.
    pub fn new() -> (r: Self)
        ensures
            r.wf(),
            r@ == Map::<EventKind, Seq<Option<Seq<T>>>>::empty(),
    {
        let r = Registry { kinds: Vec::new(), tables: Vec::new() };
        proof {
            assert(r@ =~= Map::<EventKind, Seq<Option<Seq<T>>>>::empty());
        }
        r
    }

    /// The entry for `kind`, if there is one.
    fn find(&self, kind: EventKind) -> (r: Option<usize>)
        requires
            self.wf(),
        ensures
            match r {
                Some(i) => {
                    &&& i < self.kinds@.len()
                    &&& self.kinds@[i as int] == kind
                    &&& self@.contains_key(kind)
                    &&& self@[kind] == self.tables@[i as int]@
                },
                None => !self@.contains_key(kind),
            },
    {
        let n = self.kinds.len();
        let mut i: usize = 0;
        while i < n
            invariant
                i <= n,
                n == self.kinds@.len(),
                self.wf(),
                forall|j: int| 0 <= j < i ==> self.kinds@[j] != kind,
            decreases n - i,
        {
            if self.kinds[i] == kind {
                proof {
                    self.lemma_idx_of(kind, i as int);
                }
                return Some(i);
            }
            i += 1;
        }
        proof {
            assert(!self.has_kind(kind));
        }
        None
    }

    /// Looks `kind` up, creating and registering an empty subscriber set if it
    /// has none yet; returns the index of its entry. Exactly one entry per
    /// kind ever exists, so two callers can never create two distinct sets.
    fn get_or_create_set(&mut self, kind: EventKind) -> (i: usize)
        requires
            old(self).wf(),
        ensures
            final(self).wf(),
            final(self)@ == ensure_kind(old(self)@, kind),
            i < final(self).kinds@.len(),
            final(self).kinds@.len() == final(self).tables@.len(),
            final(self).kinds@[i as int] == kind,
            final(self)@.contains_key(kind),
            final(self)@[kind] == final(self).tables@[i as int]@,
    {
        let found = self.find(kind);
        match found {
            Some(i) => {
                proof {
                    assert(ensure_kind(old(self)@, kind) == old(self)@);
                }
                i
            },
            None => {
                let n = self.kinds.len();
                let ghost pre = *self;
                self.kinds.push(kind);
                self.tables.push(SubscriberSet::new());
                proof {
                    assert forall|i2: int, j2: int|
                        0 <= i2 < j2 < self.kinds@.len() implies self.kinds@[i2]
                        != self.kinds@[j2] by {
                        if j2 < n {
                            assert(pre.kinds@[i2] != pre.kinds@[j2]);
                        } else {
                            assert(!pre.has_kind(kind));
                            assert(pre.kinds@[i2] != kind);
                        }
                    }
                    self.lemma_idx_of(kind, n as int);
                    let rhs = ensure_kind(pre@, kind);
                    assert forall|k2: EventKind| self@.contains_key(k2)
                        == rhs.contains_key(k2) by {
                        if k2 == kind {
                            assert(self.has_kind(kind));
                        } else {
                            assert(self.has_kind(k2) == pre.has_kind(k2)) by {
                                if self.has_kind(k2) {
                                    let j = choose|j: int|
                                        0 <= j < self.kinds@.len() && self.kinds@[j] == k2;
                                    assert(j < n);
                                    assert(pre.kinds@[j] == k2);
                                }
                                if pre.has_kind(k2) {
                                    let j = choose|j: int|
                                        0 <= j < pre.kinds@.len() && pre.kinds@[j] == k2;
                                    assert(self.kinds@[j] == k2);
                                }
                            }
                        }
                    }
                    assert forall|k2: EventKind| self@.contains_key(k2) implies self@[k2]
                        == rhs[k2] by {
                        if k2 == kind {
                            assert(self@[k2] == self.tables@[n as int]@);
                            assert(self.tables@[n as int]@ =~= Seq::<Option<Seq<T>>>::empty());
                        } else {
                            let j = choose|j: int|
                                0 <= j < pre.kinds@.len() && pre.kinds@[j] == k2;
                            assert(pre.kinds@[j] == k2);
                            pre.lemma_idx_of(k2, j);
                            self.lemma_idx_of(k2, j);
                        }
                    }
                    assert(self@ =~= rhs);
                }
                n
            },
        }
    }

    /// Publishes `event` under `kind`: creates the kind's entry if needed and
    /// appends a copy of the event to every live subscriber queue of that
    /// kind. No other kind's subscribers see anything.
    pub fn publish(&mut self, kind: EventKind, event: T)
        requires
            old(self).wf(),
        ensures
            final(self).wf(),
            final(self)@ == publish_transition(old(self)@, kind, event),
    {
        let i = self.get_or_create_set(kind);
        let ghost mid = *self;
        let mut tbl = self.tables.remove(i);
        tbl.broadcast(event);
        let ghost tblg = tbl;
        self.tables.insert(i, tbl);
        proof {
            assert(self.tables@ =~= mid.tables@.update(i as int, tblg));
            Self::lemma_view_after_table_update(mid, *self, i as int);
            assert(self@ == mid@.insert(kind, broadcast_to(mid@[kind], event)));
        }
    }

    /// Registers a new subscriber under `kind`, creating the kind's entry if
    /// needed, and returns the subscriber's handle: a slot of the kind's set
    /// that was free before and now holds an empty queue. Every existing
    /// subscriber of every kind is untouched.
    pub fn subscribe(&mut self, kind: EventKind) -> (h: usize)
        requires
            old(self).wf(),
        ensures
            final(self).wf(),
            ({
                let m1 = ensure_kind(old(self)@, kind);
                &&& slot_filled(m1[kind], final(self)@[kind], h as int, Seq::<T>::empty())
                &&& final(self)@ == m1.insert(kind, final(self)@[kind])
                &&& live(final(self)@[kind], h as int)
                &&& count_live(final(self)@[kind]) == count_live(m1[kind]) + 1
            }),
    {
        let i = self.get_or_create_set(kind);
        let ghost mid = *self;
        let mut tbl = self.tables.remove(i);
        let h = tbl.insert();
        let ghost tblg = tbl;
        self.tables.insert(i, tbl);
        proof {
            assert(self.tables@ =~= mid.tables@.update(i as int, tblg));
            Self::lemma_view_after_table_update(mid, *self, i as int);
        }
        h
    }

    /// Unregisters subscriber `h` of `kind`: frees its slot and drops its
    /// pending queue, leaving every other subscriber of every kind untouched.
    /// The handle must be live: removing a handle twice is a caller error.
    pub fn unsubscribe(&mut self, kind: EventKind, h: usize)
        requires
            old(self).wf(),
            old(self)@.contains_key(kind),
            live(old(self)@[kind], h as int),
        ensures
            final(self).wf(),
            final(self)@ == old(self)@.insert(kind, old(self)@[kind].update(h as int, None)),
            count_live(final(self)@[kind]) + 1 == count_live(old(self)@[kind]),
    {
        let i = self.get_or_create_set(kind);
        let ghost mid = *self;
        let mut tbl = self.tables.remove(i);
        tbl.remove(h);
        let ghost tblg = tbl;
        self.tables.insert(i, tbl);
        proof {
            assert(self.tables@ =~= mid.tables@.update(i as int, tblg));
            Self::lemma_view_after_table_update(mid, *self, i as int);
        }
    }

    /// Hands subscriber `h` of `kind` its oldest pending event, if any.
    pub fn take_next(&mut self, kind: EventKind, h: usize) -> (e: Option<T>)
        requires
            old(self).wf(),
            old(self)@.contains_key(kind),
            live(old(self)@[kind], h as int),
        ensures
            final(self).wf(),
            ({
                let q = old(self)@[kind][h as int]->Some_0;
                if q.len() > 0 {
                    &&& e == Some(q[0])
                    &&& final(self)@ == old(self)@.insert(
                        kind,
                        old(self)@[kind].update(h as int, Some(q.drop_first())),
                    )
                } else {
                    &&& e is None
                    &&& final(self)@ == old(self)@
                }
            }),
    {
        let i = self.get_or_create_set(kind);
        let ghost mid = *self;
        let mut tbl = self.tables.remove(i);
        let e = tbl.take_next(h);
        let ghost tblg = tbl;
        self.tables.insert(i, tbl);
        proof {
            assert(self.tables@ =~= mid.tables@.update(i as int, tblg));
            Self::lemma_view_after_table_update(mid, *self, i as int);
            let q = old(self)@[kind][h as int]->Some_0;
            if q.len() == 0 {
                assert(tblg@ =~= mid@[kind]);
                assert(mid@.insert(kind, tblg@) =~= old(self)@);
            }
        }
        e
    }

    /// The number of live subscribers of `kind`; zero for a kind never used.
    pub fn live_count(&self, kind: EventKind) -> (n: usize)
        requires
            self.wf(),
        ensures
            n as nat == if self@.contains_key(kind) {
                count_live(self@[kind])
            } else {
                0
            },
    {
        let found = self.find(kind);
        match found {
            Some(i) => {
                let tbl = &self.tables[i];
                tbl.live_count()
            },
            None => 0,
        }
    }
}

} // verus!
