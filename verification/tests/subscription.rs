use simple_broker::broker::SimpleBroker;
use simple_broker::event::{EventKind, MessageMutated, MutationType};
use simple_broker::subscription::{event_matches, SubscriptionRoot};

fn ev(t: MutationType, id: usize) -> MessageMutated {
    MessageMutated::new(t, id)
}

fn message_mutated_kind() -> EventKind {
    EventKind(1)
}

#[test]
fn example_scenario() {
    let mut broker: SimpleBroker<MessageMutated> = SimpleBroker::new();
    let kind = message_mutated_kind();

    let s1 = broker.subscribe(kind);
    let s2 = broker.subscribe(kind);
    broker.publish(kind, ev(MutationType::Updated, 7));
    assert_eq!(s1.try_next(&mut broker), Some(ev(MutationType::Updated, 7)));
    assert_eq!(s2.try_next(&mut broker), Some(ev(MutationType::Updated, 7)));

    // S1 is disposed: it yields nothing further (closing consumes it), and the
    // second publish reaches S2 alone.
    assert_eq!(s1.try_next(&mut broker), None);
    s1.close(&mut broker);
    let s3 = SubscriptionRoot.messages(
        &mut broker,
        kind,
        Some(MutationType::Deleted),
        Some(7),
    );
    broker.publish(kind, ev(MutationType::Deleted, 7));
    assert_eq!(s2.try_next(&mut broker), Some(ev(MutationType::Deleted, 7)));

    // The filtered subscription skips the non-matching event and yields only
    // the deletion of record 7.
    broker.publish(kind, ev(MutationType::Created, 9));
    broker.publish(kind, ev(MutationType::Deleted, 7));
    assert_eq!(s3.try_next(&mut broker), Some(ev(MutationType::Deleted, 7)));
    assert_eq!(s3.try_next(&mut broker), Some(ev(MutationType::Deleted, 7)));
    assert_eq!(s3.try_next(&mut broker), None);
}

#[test]
fn filter_matches() {
    let e = ev(MutationType::Updated, 3);
    assert!(event_matches(&e, None, None));
    assert!(event_matches(&e, Some(MutationType::Updated), None));
    assert!(event_matches(&e, None, Some(3)));
    assert!(event_matches(&e, Some(MutationType::Updated), Some(3)));
    assert!(!event_matches(&e, Some(MutationType::Deleted), Some(3)));
    assert!(!event_matches(&e, Some(MutationType::Updated), Some(4)));
}

#[test]
fn unfiltered_subscription_sees_everything() {
    let mut broker: SimpleBroker<MessageMutated> = SimpleBroker::new();
    let kind = message_mutated_kind();
    let s = SubscriptionRoot.messages(&mut broker, kind, None, None);
    broker.publish(kind, ev(MutationType::Created, 1));
    broker.publish(kind, ev(MutationType::Deleted, 1));
    assert_eq!(s.try_next(&mut broker), Some(ev(MutationType::Created, 1)));
    assert_eq!(s.try_next(&mut broker), Some(ev(MutationType::Deleted, 1)));
    assert_eq!(s.try_next(&mut broker), None);
}

#[test]
fn non_matching_events_are_discarded_without_ending_the_stream() {
    let mut broker: SimpleBroker<MessageMutated> = SimpleBroker::new();
    let kind = message_mutated_kind();
    let s = SubscriptionRoot.messages(&mut broker, kind, Some(MutationType::Deleted), None);
    broker.publish(kind, ev(MutationType::Created, 1));
    broker.publish(kind, ev(MutationType::Updated, 1));
    assert_eq!(s.try_next(&mut broker), None);
    broker.publish(kind, ev(MutationType::Deleted, 1));
    assert_eq!(s.try_next(&mut broker), Some(ev(MutationType::Deleted, 1)));
    s.close(&mut broker);
    assert_eq!(broker.live_count(kind), 0);
}

#[test]
fn interval_steps_by_n() {
    let root = SubscriptionRoot;
    let mut value: i32 = 0;
    let mut seen: Vec<i32> = Vec::new();
    for _ in 0..3 {
        value = root.interval_step(value, 2);
        seen.push(value);
    }
    assert_eq!(seen, vec![2, 4, 6]);
    assert_eq!(root.interval_step(5, -3), 2);
}
