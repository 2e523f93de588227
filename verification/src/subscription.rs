//! The subscription surface: wraps a raw broker stream with the caller's
//! optional filters (mutation type, record id) and only hands out events that
//! pass them; non-matching events are consumed and discarded without
//! terminating the stream.

use vstd::prelude::*;

use crate::broker::{BrokerStream, SimpleBroker};
use crate::event::{EventKind, MessageMutated, MutationType};
use crate::registry::ensure_kind;
use crate::slots::slot_filled;

verus! {

/// The event passes the filter: each given criterion matches it, and an
/// absent criterion matches everything.
pub open spec fn spec_matches(
    e: MessageMutated,
    mutation_type: Option<MutationType>,
    id: Option<usize>,
) -> bool {
    &&& (mutation_type matches Some(t) ==> t == e.mutation_type)
    &&& (id matches Some(i) ==> i == e.id)
}

/// The first event of `q` that passes the filter, paired with what is left of
/// `q` once it and everything before it are consumed; or `None` and `q`'s
/// matching-free tail when nothing pending matches.
pub open spec fn filtered_next(
    q: Seq<MessageMutated>,
    mutation_type: Option<MutationType>,
    id: Option<usize>,
) -> (Option<MessageMutated>, Seq<MessageMutated>)
    decreases q.len(),
{
    if q.len() == 0 {
        (None, q)
    } else if spec_matches(q[0], mutation_type, id) {
        (Some(q[0]), q.drop_first())
    } else {
        filtered_next(q.drop_first(), mutation_type, id)
    }
}

/// What the filter hands out passes it, and it answers `None` only when
/// nothing pending passes: non-matching events are dropped, never forwarded,
/// and matching ones are never dropped.
pub proof fn lemma_filtered_next_sound(
    q: Seq<MessageMutated>,
    mutation_type: Option<MutationType>,
    id: Option<usize>,
)
    ensures
        ({
            let r = filtered_next(q, mutation_type, id);
            &&& (r.0 matches Some(x) ==> spec_matches(x, mutation_type, id))
            &&& (r.0 is None ==> forall|i: int|
                0 <= i < q.len() ==> !spec_matches(#[trigger] q[i], mutation_type, id))
        }),
    decreases q.len(),
{
    if q.len() > 0 && !spec_matches(q[0], mutation_type, id) {
        lemma_filtered_next_sound(q.drop_first(), mutation_type, id);
        let r = filtered_next(q, mutation_type, id);
        if r.0 is None {
            assert forall|i: int|
                0 <= i < q.len() implies !spec_matches(#[trigger] q[i], mutation_type, id) by {
                if i > 0 {
                    assert(q.drop_first()[i - 1] == q[i]);
                }
            }
        }
    }
}

/// Whether `event` passes the filter.
pub fn event_matches(
    event: &MessageMutated,
    mutation_type: Option<MutationType>,
    id: Option<usize>,
) -> (b: bool)
    ensures
        b == spec_matches(*event, mutation_type, id),
{
    let type_ok = match mutation_type {
        Some(t) => t == event.mutation_type,
        None => true,
    };
    let id_ok = match id {
        Some(i) => i == event.id,
        None => true,
    };
    type_ok && id_ok
}

/// A broker stream narrowed by a filter: yields exactly the events of its
/// kind that pass the filter, in publish order.
pub struct FilteredStream {
    stream: BrokerStream,
    mutation_type: Option<MutationType>,
    id: Option<usize>,
}

impl FilteredStream {
    /// The underlying broker stream.
    pub closed spec fn stream(self) -> BrokerStream {
        self.stream
    }

    /// The mutation-type criterion, if any.
    pub closed spec fn mutation_type(self) -> Option<MutationType> {
        self.mutation_type
    }

    /// The record-id criterion, if any.
    pub closed spec fn id(self) -> Option<usize> {
        self.id
    }

    /// Takes events from the underlying stream until one passes the filter
    /// and hands that one out; the non-matching events before it are consumed
    /// and discarded without terminating the stream. `None` once nothing
    /// pending matches (everything pending is then consumed).
    pub fn try_next(&self, broker: &mut SimpleBroker<MessageMutated>) -> (e: Option<
        MessageMutated,
    >)
        requires
            old(broker).wf(),
            old(broker).has_stream(self.stream()),
        ensures
            final(broker).wf(),
            final(broker).has_stream(self.stream()),
            e == filtered_next(
                old(broker).pending(self.stream()),
                self.mutation_type(),
                self.id(),
            ).0,
            final(broker)@ == old(broker)@.insert(
                self.stream().kind(),
                old(broker)@[self.stream().kind()].update(
                    self.stream().handle() as int,
                    Some(
                        filtered_next(
                            old(broker).pending(self.stream()),
                            self.mutation_type(),
                            self.id(),
                        ).1,
                    ),
                ),
            ),
    {
        let ghost q0 = old(broker).pending(self.stream());
        let ghost kind = self.stream().kind();
        let ghost h = self.stream().handle() as int;
        proof {
            assert(old(broker)@[kind].update(h, Some(q0)) =~= old(broker)@[kind]);
            assert(old(broker)@.insert(kind, old(broker)@[kind]) =~= old(broker)@);
        }
        loop
            invariant
                kind == self.stream().kind(),
                h == self.stream().handle() as int,
                q0 == old(broker).pending(self.stream()),
                old(broker).wf(),
                old(broker).has_stream(self.stream()),
                broker.wf(),
                broker.has_stream(self.stream()),
                filtered_next(broker.pending(self.stream()), self.mutation_type(), self.id())
                    == filtered_next(q0, self.mutation_type(), self.id()),
                broker@ == old(broker)@.insert(
                    kind,
                    old(broker)@[kind].update(h, Some(broker.pending(self.stream()))),
                ),
            decreases broker.pending(self.stream()).len(),
        {
            let ghost pre = *broker;
            match self.stream.try_next(broker) {
                Some(ev) => {
                    proof {
                        let qpre = pre.pending(self.stream());
                        assert(broker@ == pre@.insert(
                            kind,
                            pre@[kind].update(h, Some(qpre.drop_first())),
                        ));
                        assert(pre@[kind] == old(broker)@[kind].update(h, Some(qpre)));
                        assert(old(broker)@[kind].update(h, Some(qpre)).len() == old(
                            broker,
                        )@[kind].len());
                        assert(0 <= h < old(broker)@[kind].len());
                        assert(pre@[kind].update(h, Some(qpre.drop_first()))
                            =~= old(broker)@[kind].update(h, Some(qpre.drop_first())));
                        assert(broker@ =~= old(broker)@.insert(
                            kind,
                            old(broker)@[kind].update(h, Some(qpre.drop_first())),
                        ));
                        assert(broker.pending(self.stream()) == qpre.drop_first());
                    }
                    if event_matches(&ev, self.mutation_type, self.id) {
                        return Some(ev);
                    }
                },
                None => {
                    return None;
                },
            }
        }
    }

    /// Closes the underlying stream: no later publish reaches it, and its
    /// kind's live count drops by one.
    pub fn close(self, broker: &mut SimpleBroker<MessageMutated>)
        requires
            old(broker).wf(),
            old(broker).has_stream(self.stream()),
        ensures
            final(broker).wf(),
            final(broker)@ == old(broker)@.insert(
                self.stream().kind(),
                old(broker)@[self.stream().kind()].update(self.stream().handle() as int, None),
            ),
    {
        self.stream.close(broker)
    }
}

/// The subscription surface: every call yields an independent stream.
pub struct SubscriptionRoot;

impl SubscriptionRoot {
    /// A new subscription to the message-change events published under
    /// `kind`, narrowed by the optional filters. Every existing subscriber of
    /// every kind keeps its slot and queue exactly as it was.
    pub fn messages(
        &self,
        broker: &mut SimpleBroker<MessageMutated>,
        kind: EventKind,
        mutation_type: Option<MutationType>,
        id: Option<usize>,
    ) -> (s: FilteredStream)
        requires
            old(broker).wf(),
        ensures
            final(broker).wf(),
            s.stream().kind() == kind,
            s.mutation_type() == mutation_type,
            s.id() == id,
            final(broker).has_stream(s.stream()),
            final(broker).pending(s.stream()) == Seq::<MessageMutated>::empty(),
            ({
                let m1 = ensure_kind(old(broker)@, kind);
                &&& slot_filled(
                    m1[kind],
                    final(broker)@[kind],
                    s.stream().handle() as int,
                    Seq::<MessageMutated>::empty(),
                )
                &&& final(broker)@ == m1.insert(kind, final(broker)@[kind])
            }),
    {
        let stream = broker.subscribe(kind);
        FilteredStream { stream, mutation_type, id }
    }

    /// One tick of the interval stream: the next value is the previous one
    /// plus the step.
    pub fn interval_step(&self, value: i32, n: i32) -> (r: i32)
        requires
            i32::MIN <= value + n <= i32::MAX,
        ensures
            r == value + n,
    {
        value + n
    }
}

} // verus!
