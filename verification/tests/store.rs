use simple_broker::broker::SimpleBroker;
use simple_broker::event::{EventKind, MessageMutated, MutationType, UserMutated};
use simple_broker::store::{Db, Message, MutationRoot, QueryRoot, StoreError, User};

fn msg_kind() -> EventKind {
    EventKind(1)
}

fn user_kind() -> EventKind {
    EventKind(2)
}

fn setup() -> (Db, SimpleBroker<MessageMutated>, SimpleBroker<UserMutated>) {
    (Db::new(), SimpleBroker::new(), SimpleBroker::new())
}

#[test]
fn save_user_creates_with_fresh_ids() {
    let (mut db, _, mut users) = setup();
    let root = MutationRoot;
    let watcher = users.subscribe(user_kind());
    let alice = root.save_user(&mut db, &mut users, user_kind(), None, "alice".to_string()).unwrap();
    let bob = root.save_user(&mut db, &mut users, user_kind(), None, "bob".to_string()).unwrap();
    assert_eq!(alice.id, 0);
    assert_eq!(alice.name, "alice");
    assert_eq!(bob.id, 1);
    let all = QueryRoot.users(&db);
    assert_eq!(all.len(), 2);
    assert_eq!(all[0].name, "alice");
    assert_eq!(all[1].name, "bob");
    // One `Created` event per successful save, in order.
    assert_eq!(
        watcher.try_next(&mut users),
        Some(UserMutated::new(MutationType::Created, 0))
    );
    assert_eq!(
        watcher.try_next(&mut users),
        Some(UserMutated::new(MutationType::Created, 1))
    );
    assert_eq!(watcher.try_next(&mut users), None);
}

#[test]
fn save_user_updates_name_in_place() {
    let (mut db, _, mut users) = setup();
    let root = MutationRoot;
    root.save_user(&mut db, &mut users, user_kind(), None, "alice".to_string()).unwrap();
    let watcher = users.subscribe(user_kind());
    let renamed = root.save_user(&mut db, &mut users, user_kind(), Some(0), "alicia".to_string()).unwrap();
    assert_eq!(renamed.id, 0);
    assert_eq!(renamed.name, "alicia");
    let all = QueryRoot.users(&db);
    assert_eq!(all.len(), 1);
    assert_eq!(all[0].name, "alicia");
    assert_eq!(
        watcher.try_next(&mut users),
        Some(UserMutated::new(MutationType::Updated, 0))
    );
    assert_eq!(watcher.try_next(&mut users), None);
}

#[test]
fn save_user_unknown_id_is_refused() {
    let (mut db, _, mut users) = setup();
    let watcher = users.subscribe(user_kind());
    let r = MutationRoot.save_user(&mut db, &mut users, user_kind(), Some(5), "ghost".to_string());
    assert!(matches!(r, Err(StoreError::UserNotFound)));
    assert!(QueryRoot.users(&db).is_empty());
    // A refused save publishes nothing.
    assert_eq!(watcher.try_next(&mut users), None);
}

#[test]
fn save_message_creates_and_publishes_created() {
    let (mut db, mut broker, _) = setup();
    let root = MutationRoot;
    let watcher = broker.subscribe(msg_kind());
    let m = root
        .save_message(&mut db, &mut broker, msg_kind(), None, Some(0), "hi".to_string())
        .unwrap();
    assert_eq!(m.id, 0);
    assert_eq!(m.user_id, 0);
    assert_eq!(m.text, "hi");
    assert_eq!(
        watcher.try_next(&mut broker),
        Some(MessageMutated::new(MutationType::Created, 0))
    );
    assert_eq!(watcher.try_next(&mut broker), None);
}

#[test]
fn save_message_update_keeps_sender_and_publishes_updated() {
    let (mut db, mut broker, _) = setup();
    let root = MutationRoot;
    root.save_message(&mut db, &mut broker, msg_kind(), None, Some(4), "hi".to_string())
        .unwrap();
    let watcher = broker.subscribe(msg_kind());
    let m = root
        .save_message(&mut db, &mut broker, msg_kind(), Some(0), None, "edited".to_string())
        .unwrap();
    assert_eq!(m.id, 0);
    assert_eq!(m.user_id, 4);
    assert_eq!(m.text, "edited");
    assert_eq!(
        watcher.try_next(&mut broker),
        Some(MessageMutated::new(MutationType::Updated, 0))
    );
}

#[test]
fn save_message_without_sender_is_refused_and_publishes_nothing() {
    let (mut db, mut broker, _) = setup();
    let watcher = broker.subscribe(msg_kind());
    let r = MutationRoot.save_message(&mut db, &mut broker, msg_kind(), None, None, "hi".to_string());
    assert!(matches!(r, Err(StoreError::MissingUserId)));
    assert!(QueryRoot.messages(&db).is_empty());
    assert_eq!(watcher.try_next(&mut broker), None);
}

#[test]
fn save_message_unknown_id_is_refused_and_publishes_nothing() {
    let (mut db, mut broker, _) = setup();
    let watcher = broker.subscribe(msg_kind());
    let r = MutationRoot.save_message(&mut db, &mut broker, msg_kind(), Some(9), None, "hi".to_string());
    assert!(matches!(r, Err(StoreError::MessageNotFound)));
    assert_eq!(watcher.try_next(&mut broker), None);
}

#[test]
fn delete_message_publishes_deleted_once() {
    let (mut db, mut broker, _) = setup();
    let root = MutationRoot;
    root.save_message(&mut db, &mut broker, msg_kind(), None, Some(0), "hi".to_string())
        .unwrap();
    let watcher = broker.subscribe(msg_kind());
    assert!(root.delete_message(&mut db, &mut broker, msg_kind(), 0));
    assert!(QueryRoot.messages(&db).is_empty());
    assert_eq!(
        watcher.try_next(&mut broker),
        Some(MessageMutated::new(MutationType::Deleted, 0))
    );
    // A second delete of the same id misses: no change, no event.
    assert!(!root.delete_message(&mut db, &mut broker, msg_kind(), 0));
    assert_eq!(watcher.try_next(&mut broker), None);
}

#[test]
fn deleted_slot_is_recycled() {
    let (mut db, mut broker, _) = setup();
    let root = MutationRoot;
    root.save_message(&mut db, &mut broker, msg_kind(), None, Some(0), "a".to_string())
        .unwrap();
    root.save_message(&mut db, &mut broker, msg_kind(), None, Some(0), "b".to_string())
        .unwrap();
    root.delete_message(&mut db, &mut broker, msg_kind(), 0);
    let m = root
        .save_message(&mut db, &mut broker, msg_kind(), None, Some(0), "c".to_string())
        .unwrap();
    assert_eq!(m.id, 0);
    let all = QueryRoot.messages(&db);
    assert_eq!(all.len(), 2);
    assert_eq!(all[0].text, "c");
    assert_eq!(all[1].text, "b");
}

#[test]
fn message_user_lookup() {
    let (mut db, mut broker, mut users) = setup();
    let root = MutationRoot;
    root.save_user(&mut db, &mut users, user_kind(), None, "alice".to_string()).unwrap();
    let m = root
        .save_message(&mut db, &mut broker, msg_kind(), None, Some(0), "hi".to_string())
        .unwrap();
    let sender = m.user(&db).unwrap();
    assert_eq!(sender.id, 0);
    assert_eq!(sender.name, "alice");
    let orphan = Message::new(1, 42, "lost".to_string());
    assert!(matches!(orphan.user(&db), Err(StoreError::UserNotFound)));
}

#[test]
fn user_messages_filters_by_sender() {
    let (mut db, mut broker, mut users) = setup();
    let root = MutationRoot;
    let alice = root.save_user(&mut db, &mut users, user_kind(), None, "alice".to_string()).unwrap();
    root.save_user(&mut db, &mut users, user_kind(), None, "bob".to_string()).unwrap();
    root.save_message(&mut db, &mut broker, msg_kind(), None, Some(0), "one".to_string())
        .unwrap();
    root.save_message(&mut db, &mut broker, msg_kind(), None, Some(1), "two".to_string())
        .unwrap();
    root.save_message(&mut db, &mut broker, msg_kind(), None, Some(0), "three".to_string())
        .unwrap();
    let hers = alice.messages(&db);
    assert_eq!(hers.len(), 2);
    assert_eq!(hers[0].text, "one");
    assert_eq!(hers[1].text, "three");
}

#[test]
fn event_resolves_its_message_while_it_exists() {
    let (mut db, mut broker, _) = setup();
    let root = MutationRoot;
    root.save_message(&mut db, &mut broker, msg_kind(), None, Some(0), "hi".to_string())
        .unwrap();
    let ev = MessageMutated::new(MutationType::Created, 0);
    let found = ev.message(&db).unwrap();
    assert_eq!(found.text, "hi");
    root.delete_message(&mut db, &mut broker, msg_kind(), 0);
    assert!(ev.message(&db).is_none());
}

#[test]
fn record_getters() {
    let u = User::new(3, "carol".to_string());
    assert_eq!(u.id(), 3);
    assert_eq!(u.name(), "carol");
    let m = Message::new(5, 3, "hey".to_string());
    assert_eq!(m.id(), 5);
    assert_eq!(m.text(), "hey");
    let ev = MessageMutated::new(MutationType::Deleted, 5);
    assert_eq!(ev.mutation_type(), MutationType::Deleted);
    assert_eq!(ev.id, 5);
    let uev = UserMutated::new(MutationType::Created, 3);
    assert_eq!(uev.mutation_type(), MutationType::Created);
    assert_eq!(uev.id, 3);
}
