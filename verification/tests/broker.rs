use simple_broker::broker::SimpleBroker;
use simple_broker::event::{EventKind, MessageMutated, MutationType};

fn updated(id: usize) -> MessageMutated {
    MessageMutated::new(MutationType::Updated, id)
}

#[test]
fn no_cross_kind_leakage() {
    let mut b: SimpleBroker<MessageMutated> = SimpleBroker::new();
    let kind_a = EventKind(1);
    let kind_b = EventKind(2);
    let sub_a = b.subscribe(kind_a);
    let sub_b = b.subscribe(kind_b);
    b.publish(kind_a, updated(7));
    assert_eq!(sub_b.try_next(&mut b), None);
    assert_eq!(sub_a.try_next(&mut b), Some(updated(7)));
    b.publish(kind_b, updated(9));
    assert_eq!(sub_a.try_next(&mut b), None);
    assert_eq!(sub_b.try_next(&mut b), Some(updated(9)));
}

#[test]
fn broadcast_fan_out() {
    let mut b: SimpleBroker<MessageMutated> = SimpleBroker::new();
    let kind = EventKind(4);
    let subs = vec![b.subscribe(kind), b.subscribe(kind), b.subscribe(kind)];
    b.publish(kind, updated(1));
    b.publish(kind, updated(2));
    for s in &subs {
        assert_eq!(s.try_next(&mut b), Some(updated(1)));
        assert_eq!(s.try_next(&mut b), Some(updated(2)));
        assert_eq!(s.try_next(&mut b), None);
    }
}

#[test]
fn cleanup_on_disposal() {
    let mut b: SimpleBroker<MessageMutated> = SimpleBroker::new();
    let kind = EventKind(3);
    let s1 = b.subscribe(kind);
    let s2 = b.subscribe(kind);
    assert_eq!(b.live_count(kind), 2);
    assert_eq!(s1.try_next(&mut b), None);
    s1.close(&mut b);
    assert_eq!(b.live_count(kind), 1);
    b.publish(kind, updated(5));
    assert_eq!(s2.try_next(&mut b), Some(updated(5)));
}

#[test]
fn independence_of_subscribers() {
    let mut b: SimpleBroker<MessageMutated> = SimpleBroker::new();
    let kind = EventKind(6);
    let closing = b.subscribe(kind);
    let staying = b.subscribe(kind);
    b.publish(kind, updated(1));
    closing.close(&mut b);
    b.publish(kind, updated(2));
    assert_eq!(staying.try_next(&mut b), Some(updated(1)));
    assert_eq!(staying.try_next(&mut b), Some(updated(2)));
    assert_eq!(staying.try_next(&mut b), None);
}

#[test]
fn idempotent_creation() {
    let mut b: SimpleBroker<MessageMutated> = SimpleBroker::new();
    let kind = EventKind(8);
    // A publish to a never-seen kind records the kind and nothing else.
    b.publish(kind, updated(1));
    assert_eq!(b.live_count(kind), 0);
    // A later subscribe finds the entry the publish created: events now flow,
    // and no subscriber is lost to a duplicate entry.
    let s1 = b.subscribe(kind);
    let s2 = b.subscribe(kind);
    assert_eq!(b.live_count(kind), 2);
    b.publish(kind, updated(2));
    assert_eq!(s1.try_next(&mut b), Some(updated(2)));
    assert_eq!(s2.try_next(&mut b), Some(updated(2)));
}

#[test]
fn handle_reuse_after_close() {
    let mut b: SimpleBroker<MessageMutated> = SimpleBroker::new();
    let kind = EventKind(9);
    let s1 = b.subscribe(kind);
    let s2 = b.subscribe(kind);
    s1.close(&mut b);
    // The freed slot is recycled for the newcomer without touching s2.
    let s3 = b.subscribe(kind);
    b.publish(kind, updated(3));
    assert_eq!(s2.try_next(&mut b), Some(updated(3)));
    assert_eq!(s3.try_next(&mut b), Some(updated(3)));
    assert_eq!(b.live_count(kind), 2);
}

#[test]
fn live_count_of_unused_kind_is_zero() {
    let mut b: SimpleBroker<MessageMutated> = SimpleBroker::new();
    assert_eq!(b.live_count(EventKind(77)), 0);
    let s = b.subscribe(EventKind(1));
    assert_eq!(b.live_count(EventKind(77)), 0);
    s.close(&mut b);
}

#[test]
fn subscriber_sees_only_later_events() {
    let mut b: SimpleBroker<MessageMutated> = SimpleBroker::new();
    let kind = EventKind(2);
    b.publish(kind, updated(1));
    let s = b.subscribe(kind);
    assert_eq!(s.try_next(&mut b), None);
    b.publish(kind, updated(2));
    assert_eq!(s.try_next(&mut b), Some(updated(2)));
}
