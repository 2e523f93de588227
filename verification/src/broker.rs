//! The broker facade: `publish` and `subscribe` over one registry instance,
//! and the per-subscriber stream of events. One broker is constructed per
//! process and shared with everything that publishes or subscribes; tests may
//! construct as many as they like.

use vstd::prelude::*;

use crate::event::EventKind;
use crate::registry::{ensure_kind, publish_transition, Registry};
use crate::slots::{count_live, lemma_count_live_update, live, slot_filled};
use crate::subscriber_set::broadcast_to;

verus! {

/// One subscription's cancellable event stream: the handle of its queue
/// within its kind's subscriber set. Events are taken with `try_next`, in the
/// order they were published; `close` takes the stream by value, so a stream
/// cannot be closed twice. A stream is not restartable: a new `subscribe`
/// call is required to start over.
pub struct BrokerStream {
    kind: EventKind,
    handle: usize,
}

impl BrokerStream {
    /// The kind this stream was subscribed to.
    pub closed spec fn kind(self) -> EventKind {
        self.kind
    }

    /// The slot of this stream's queue within its kind's subscriber set.
    pub closed spec fn handle(self) -> usize {
        self.handle
    }
}

/// An in-memory broker: fans each published event out to every live
/// subscriber of the event's kind. Its view is the map from each kind ever
/// used to the pending queues of that kind's subscribers.
pub struct SimpleBroker<T> {
    registry: Registry<T>,
}

impl<T> View for SimpleBroker<T> {
    type V = Map<EventKind, Seq<Option<Seq<T>>>>;

    closed spec fn view(&self) -> Map<EventKind, Seq<Option<Seq<T>>>> {
        self.registry@
    }
}

impl<T> SimpleBroker<T> {
    /// The broker's internal registry is well-formed.
    pub closed spec fn wf(self) -> bool {
        self.registry.wf()
    }

    /// `s` is a live subscription of this broker.
    pub open spec fn has_stream(self, s: BrokerStream) -> bool {
        &&& self@.contains_key(s.kind())
        &&& live(self@[s.kind()], s.handle() as int)
    }

    /// The queue of events published to `s` and not yet taken by it.
    pub open spec fn pending(self, s: BrokerStream) -> Seq<T>
        recommends
            self.has_stream(s),
    {
        self@[s.kind()][s.handle() as int]->Some_0
    }
}

impl<T: Copy> SimpleBroker<T> {
    /// A broker with no kinds and no subscribers.
    pub fn new() -> (b: Self)
        ensures
            b.wf(),
            b@ == Map::<EventKind, Seq<Option<Seq<T>>>>::empty(),
    {
        SimpleBroker { registry: Registry::new() }
    }

    /// Publishes `event` so that every stream currently subscribed to `kind`
    /// will receive a copy of it, in publish order. Returns once the event is
    /// queued for all of them; a publish with no subscribers only records the
    /// kind. No subscriber of any other kind is affected.
    pub fn publish(&mut self, kind: EventKind, event: T)
        requires
            old(self).wf(),
        ensures
            final(self).wf(),
            final(self)@ == publish_transition(old(self)@, kind, event),
    {
        self.registry.publish(kind, event);
    }

    /// Subscribes to `kind`: registers a fresh queue in the kind's subscriber
    /// set and returns the stream that reads it. Every call yields an
    /// independent stream, and each receives every event of that kind
    /// published from now on; existing subscribers of every kind keep their
    /// slots and queues exactly as they were.
    pub fn subscribe(&mut self, kind: EventKind) -> (s: BrokerStream)
        requires
            old(self).wf(),
        ensures
            final(self).wf(),
            s.kind() == kind,
            final(self).has_stream(s),
            final(self).pending(s) == Seq::<T>::empty(),
            ({
                let m1 = ensure_kind(old(self)@, kind);
                &&& slot_filled(m1[kind], final(self)@[kind], s.handle() as int, Seq::<T>::empty())
                &&& final(self)@ == m1.insert(kind, final(self)@[kind])
                &&& count_live(final(self)@[kind]) == count_live(m1[kind]) + 1
            }),
    {
        let h = self.registry.subscribe(kind);
        BrokerStream { kind, handle: h }
    }

    /// The number of live subscribers of `kind`; zero for a kind never used.
    pub fn live_count(&self, kind: EventKind) -> (n: usize)
        requires
            self.wf(),
        ensures
            n as nat == if self@.contains_key(kind) {
                count_live(self@[kind])
            } else {
                0
            },
    {
        self.registry.live_count(kind)
    }
}

impl BrokerStream {
    /// Takes the oldest event published to this stream and not yet taken, or
    /// `None` if nothing is pending right now. Events come out in exactly the
    /// order they were published; no other subscriber's queue is touched.
    pub fn try_next<T: Copy>(&self, broker: &mut SimpleBroker<T>) -> (e: Option<T>)
        requires
            old(broker).wf(),
            old(broker).has_stream(*self),
        ensures
            final(broker).wf(),
            final(broker).has_stream(*self),
            ({
                let q = old(broker).pending(*self);
                if q.len() > 0 {
                    &&& e == Some(q[0])
                    &&& final(broker)@ == old(broker)@.insert(
                        self.kind(),
                        old(broker)@[self.kind()].update(
                            self.handle() as int,
                            Some(q.drop_first()),
                        ),
                    )
                } else {
                    &&& e is None
                    &&& final(broker)@ == old(broker)@
                }
            }),
    {
        broker.registry.take_next(self.kind, self.handle)
    }

    /// Closes the stream: unregisters its queue from its kind's subscriber
    /// set, so no later publish reaches it, and drops whatever was still
    /// pending. Every other subscriber of every kind is untouched, and the
    /// kind's live count drops by exactly one. Taking `self` by value makes a
    /// second close of the same stream impossible.
    pub fn close<T: Copy>(self, broker: &mut SimpleBroker<T>)
        requires
            old(broker).wf(),
            old(broker).has_stream(self),
        ensures
            final(broker).wf(),
            final(broker)@ == old(broker)@.insert(
                self.kind(),
                old(broker)@[self.kind()].update(self.handle() as int, None),
            ),
            count_live(final(broker)@[self.kind()]) + 1 == count_live(
                old(broker)@[self.kind()],
            ),
            !final(broker).has_stream(self),
    {
        broker.registry.unsubscribe(self.kind, self.handle)
    }
}

/// No cross-kind leakage: publishing an event under one kind leaves every
/// other kind's entry — presence and every subscriber queue — exactly as it
/// was, for all pairs of distinct kinds.
pub proof fn lemma_no_cross_kind_leakage<T>(
    m: Map<EventKind, Seq<Option<Seq<T>>>>,
    a: EventKind,
    b: EventKind,
    e: T,
)
    requires
        a != b,
    ensures
        publish_transition(m, a, e).contains_key(b) == m.contains_key(b),
        m.contains_key(b) ==> publish_transition(m, a, e)[b] == m[b],
{
}

/// Broadcast fan-out: one publish appends the event to the pending queue of
/// every subscriber live at that moment, so each of their streams yields it
/// after everything published earlier and before everything published later.
pub proof fn lemma_broadcast_fan_out<T>(
    m: Map<EventKind, Seq<Option<Seq<T>>>>,
    k: EventKind,
    e: T,
    h: int,
)
    requires
        live(ensure_kind(m, k)[k], h),
    ensures
        live(publish_transition(m, k, e)[k], h),
        publish_transition(m, k, e)[k][h]->Some_0 == ensure_kind(m, k)[k][h]->Some_0.push(e),
{
}

/// Fan-out order: two publishes in a row leave both events in every live
/// queue, in the order the publishes were issued.
pub proof fn lemma_fan_out_order<T>(
    m: Map<EventKind, Seq<Option<Seq<T>>>>,
    k: EventKind,
    e1: T,
    e2: T,
    h: int,
)
    requires
        live(ensure_kind(m, k)[k], h),
    ensures
        ({
            let m2 = publish_transition(publish_transition(m, k, e1), k, e2);
            &&& live(m2[k], h)
            &&& m2[k][h]->Some_0 == ensure_kind(m, k)[k][h]->Some_0.push(e1).push(e2)
        }),
{
    lemma_broadcast_fan_out(m, k, e1, h);
    lemma_broadcast_fan_out(publish_transition(m, k, e1), k, e2, h);
}

/// Cleanup on disposal: after a subscriber's stream is closed, its slot is
/// free, the kind's live count is down by exactly one, and a later publish of
/// that kind queues nothing for the departed subscriber.
pub proof fn lemma_cleanup_on_disposal<T>(
    m: Map<EventKind, Seq<Option<Seq<T>>>>,
    k: EventKind,
    h: int,
    e: T,
)
    requires
        m.contains_key(k),
        live(m[k], h),
    ensures
        ({
            let m2 = m.insert(k, m[k].update(h, None));
            &&& count_live(m2[k]) + 1 == count_live(m[k])
            &&& !live(m2[k], h)
            &&& !live(publish_transition(m2, k, e)[k], h)
            &&& publish_transition(m2, k, e)[k][h] is None
        }),
{
    lemma_count_live_update(m[k], h, None);
}

/// Independence: closing subscriber `x`'s stream leaves every other live
/// subscriber `y` of the same kind untouched, and a later publish of that
/// kind still reaches `y` exactly as it would have.
pub proof fn lemma_independence<T>(
    m: Map<EventKind, Seq<Option<Seq<T>>>>,
    k: EventKind,
    x: int,
    y: int,
    e: T,
)
    requires
        m.contains_key(k),
        live(m[k], x),
        live(m[k], y),
        x != y,
    ensures
        ({
            let m2 = m.insert(k, m[k].update(x, None));
            &&& live(m2[k], y)
            &&& m2[k][y] == m[k][y]
            &&& live(publish_transition(m2, k, e)[k], y)
            &&& publish_transition(m2, k, e)[k][y]->Some_0 == m[k][y]->Some_0.push(e)
        }),
{
}

/// Idempotent creation: looking a kind up creates its subscriber set only if
/// none exists, so of two racing first uses the second finds the set the
/// first created — one set per kind, and no registered subscriber is lost.
pub proof fn lemma_idempotent_creation<T>(m: Map<EventKind, Seq<Option<Seq<T>>>>, k: EventKind)
    ensures
        ensure_kind(m, k).contains_key(k),
        ensure_kind(ensure_kind(m, k), k) == ensure_kind(m, k),
        m.contains_key(k) ==> ensure_kind(m, k) == m && ensure_kind(m, k)[k] == m[k],
{
}

} // verus!
