//! The in-memory record store: users and messages in dense slot tables keyed
//! by integer id, and the mutation operations that change them. Every
//! successful mutation publishes exactly one change event to the broker;
//! refused mutations change and publish nothing.

use vstd::prelude::*;

use crate::broker::SimpleBroker;
use crate::event::{EventKind, MessageMutated, MutationType, UserMutated};
use crate::registry::publish_transition;
use crate::slots::{lemma_live_entries_take_step, live, live_entries, slot_filled};

verus! {

/// A user of the application. Its id is the slot it occupies in the store.
pub struct User {
    pub id: usize,
    pub name: String,
}

impl Clone for User {
    fn clone(&self) -> (r: Self)
        ensures
            r == *self,
    {
        User { id: self.id, name: self.name.clone() }
    }
}

impl User {
    /// A user record with the given id and name.
    pub fn new(id: usize, name: String) -> (u: Self)
        ensures
            u == (User { id, name }),
    {
        User { id, name }
    }

    /// The id of the user.
    pub fn id(&self) -> (r: usize)
        ensures
            r == self.id,
    {
        self.id
    }

    /// The user's name.
    pub fn name(&self) -> (r: String)
        ensures
            r == self.name,
    {
        self.name.clone()
    }
}

/// A message sent by a user. Its id is the slot it occupies in the store.
pub struct Message {
    pub id: usize,
    pub user_id: usize,
    pub text: String,
}

impl Clone for Message {
    fn clone(&self) -> (r: Self)
        ensures
            r == *self,
    {
        Message { id: self.id, user_id: self.user_id, text: self.text.clone() }
    }
}

impl Message {
    /// A message record with the given id, sender and text.
    pub fn new(id: usize, user_id: usize, text: String) -> (m: Self)
        ensures
            m == (Message { id, user_id, text }),
    {
        Message { id, user_id, text }
    }

    /// The id of the message.
    pub fn id(&self) -> (r: usize)
        ensures
            r == self.id,
    {
        self.id
    }

    /// The text associated with the message.
    pub fn text(&self) -> (r: String)
        ensures
            r == self.text,
    {
        self.text.clone()
    }
}

/// Why a mutation was refused. The store changes nothing and publishes
/// nothing when it returns one of these.
#[derive(Clone, Copy, PartialEq, Eq, Structural, Debug)]
pub enum StoreError {
    /// The given user id backs no live user record.
    UserNotFound,
    /// The given message id backs no live message record.
    MessageNotFound,
    /// A message was to be created without saying who sent it.
    MissingUserId,
}

/// The record store: one slot table of users and one of messages. A record's
/// id is the index of its slot; freed slots may be recycled.
pub struct Db {
    users: Vec<Option<User>>,
    messages: Vec<Option<Message>>,
}

impl Db {
    /// The user table, slot by slot.
    pub closed spec fn users_table(self) -> Seq<Option<User>> {
        self.users@
    }

    /// The message table, slot by slot.
    pub closed spec fn messages_table(self) -> Seq<Option<Message>> {
        self.messages@
    }

    /// Every live record carries the id of its own slot.
    pub closed spec fn wf(self) -> bool {
        &&& forall|i: int|
            live(self.users@, i) ==> (#[trigger] self.users@[i])->Some_0.id == i
        &&& forall|i: int|
            live(self.messages@, i) ==> (#[trigger] self.messages@[i])->Some_0.id == i
    }

    /// An empty store.
    pub fn new() -> (d: Self)
        ensures
            d.wf(),
            d.users_table() == Seq::<Option<User>>::empty(),
            d.messages_table() == Seq::<Option<Message>>::empty(),
    {
        let d = Db { users: Vec::new(), messages: Vec::new() };
        proof {
            assert(d.users@ =~= Seq::<Option<User>>::empty());
            assert(d.messages@ =~= Seq::<Option<Message>>::empty());
        }
        d
    }
}

impl Default for Db {
    fn default() -> (d: Self)
        ensures
            d.wf(),
            d.users_table() == Seq::<Option<User>>::empty(),
            d.messages_table() == Seq::<Option<Message>>::empty(),
    {
        Db::new()
    }
}

/// The first free slot of `table`, or its length if every slot is live: the
/// key the next inserted record will get.
fn vacant_key<V>(table: &Vec<Option<V>>) -> (h: usize)
    ensures
        h <= table@.len(),
        h < table@.len() ==> table@[h as int] is None,
{
    let n = table.len();
    let mut i: usize = 0;
    while i < n
        invariant
            i <= n,
            n == table@.len(),
        decreases n - i,
    {
        if table[i].is_none() {
            return i;
        }
        i += 1;
    }
    n
}

/// The first live user whose id field is `uid`, scanning from slot zero.
pub open spec fn find_user(s: Seq<Option<User>>, uid: usize) -> Option<User>
    decreases s.len(),
{
    if s.len() == 0 {
        None
    } else {
        match s[0] {
            Some(u) => if u.id == uid {
                Some(u)
            } else {
                find_user(s.drop_first(), uid)
            },
            None => find_user(s.drop_first(), uid),
        }
    }
}

/// The live messages whose sender is `uid`, in slot order.
pub open spec fn messages_of(s: Seq<Option<Message>>, uid: usize) -> Seq<Message>
    decreases s.len(),
{
    if s.len() == 0 {
        Seq::empty()
    } else {
        match s.last() {
            Some(m) => if m.user_id == uid {
                messages_of(s.drop_last(), uid).push(m)
            } else {
                messages_of(s.drop_last(), uid)
            },
            None => messages_of(s.drop_last(), uid),
        }
    }
}

/// One step of scanning the message table from the front for one sender.
proof fn lemma_messages_of_take_step(s: Seq<Option<Message>>, uid: usize, i: int)
    requires
        0 <= i < s.len(),
    ensures
        messages_of(s.take(i + 1), uid) == (match s[i] {
            Some(m) => if m.user_id == uid {
                messages_of(s.take(i), uid).push(m)
            } else {
                messages_of(s.take(i), uid)
            },
            None => messages_of(s.take(i), uid),
        }),
{
    assert(s.take(i + 1).drop_last() =~= s.take(i));
    assert(s.take(i + 1).last() == s[i]);
}

impl User {
    /// The messages sent by the user, in slot order.
    pub fn messages(&self, db: &Db) -> (r: Vec<Message>)
        ensures
            r@ == messages_of(db.messages_table(), self.id),
    {
        let n = db.messages.len();
        let mut out: Vec<Message> = Vec::new();
        let mut i: usize = 0;
        while i < n
            invariant
                i <= n,
                n == db.messages_table().len(),
                out@ == messages_of(db.messages_table().take(i as int), self.id),
            decreases n - i,
        {
            proof {
                lemma_messages_of_take_step(db.messages_table(), self.id, i as int);
            }
            match &db.messages[i] {
                Some(m) => {
                    if m.user_id == self.id {
                        out.push(m.clone());
                    }
                },
                None => {},
            }
            i += 1;
        }
        proof {
            assert(db.messages_table().take(n as int) =~= db.messages_table());
        }
        out
    }
}

impl Message {
    /// The user that sent the message: the first live user whose id matches
    /// the message's sender id.
    pub fn user(&self, db: &Db) -> (r: Result<User, StoreError>)
        ensures
            r == (match find_user(db.users_table(), self.user_id) {
                Some(u) => Ok::<User, StoreError>(u),
                None => Err::<User, StoreError>(StoreError::UserNotFound),
            }),
    {
        let n = db.users.len();
        let ghost table = db.users_table();
        proof {
            assert(table.skip(0) =~= table);
        }
        let mut i: usize = 0;
        while i < n
            invariant
                i <= n,
                n == table.len(),
                table == db.users_table(),
                find_user(table, self.user_id) == find_user(table.skip(i as int), self.user_id),
            decreases n - i,
        {
            proof {
                assert(table.skip(i as int).drop_first() =~= table.skip(i as int + 1));
                assert(table.skip(i as int)[0] == table[i as int]);
            }
            match &db.users[i] {
                Some(u) => {
                    if u.id == self.user_id {
                        return Ok(u.clone());
                    }
                },
                None => {},
            }
            i += 1;
        }
        proof {
            assert(table.skip(n as int) =~= Seq::<Option<User>>::empty());
        }
        Err(StoreError::UserNotFound)
    }
}

impl MessageMutated {
    /// The message the event is about, if it still exists in the store.
    pub fn message(&self, db: &Db) -> (r: Option<Message>)
        ensures
            r == (if live(db.messages_table(), self.id as int) {
                Some(db.messages_table()[self.id as int]->Some_0)
            } else {
                None::<Message>
            }),
    {
        if self.id < db.messages.len() {
            match &db.messages[self.id] {
                Some(m) => Some(m.clone()),
                None => None,
            }
        } else {
            None
        }
    }
}

/// The read-only query surface over the store.
pub struct QueryRoot;

impl QueryRoot {
    /// All live users, in slot order.
    pub fn users(&self, db: &Db) -> (r: Vec<User>)
        ensures
            r@ == live_entries(db.users_table()),
    {
        let n = db.users.len();
        let mut out: Vec<User> = Vec::new();
        let mut i: usize = 0;
        while i < n
            invariant
                i <= n,
                n == db.users_table().len(),
                out@ == live_entries(db.users_table().take(i as int)),
            decreases n - i,
        {
            proof {
                lemma_live_entries_take_step(db.users_table(), i as int);
            }
            match &db.users[i] {
                Some(u) => out.push(u.clone()),
                None => {},
            }
            i += 1;
        }
        proof {
            assert(db.users_table().take(n as int) =~= db.users_table());
        }
        out
    }

    /// All live messages, in slot order.
    pub fn messages(&self, db: &Db) -> (r: Vec<Message>)
        ensures
            r@ == live_entries(db.messages_table()),
    {
        let n = db.messages.len();
        let mut out: Vec<Message> = Vec::new();
        let mut i: usize = 0;
        while i < n
            invariant
                i <= n,
                n == db.messages_table().len(),
                out@ == live_entries(db.messages_table().take(i as int)),
            decreases n - i,
        {
            proof {
                lemma_live_entries_take_step(db.messages_table(), i as int);
            }
            match &db.messages[i] {
                Some(m) => out.push(m.clone()),
                None => {},
            }
            i += 1;
        }
        proof {
            assert(db.messages_table().take(n as int) =~= db.messages_table());
        }
        out
    }
}

/// The mutation surface over the store. Each successful mutation publishes
/// exactly one change event under the kind the caller registers that record
/// table's changes under; a refused mutation publishes nothing.
pub struct MutationRoot;

impl MutationRoot {
    /// Creates a user (no id given: a fresh or recycled slot is keyed with
    /// the new record, whose id is that slot, and a `Created` event is
    /// published), or updates one (id given: the live record's name is
    /// replaced and an `Updated` event is published; or `UserNotFound` is
    /// returned and nothing changes or is published). Exactly one event is
    /// published per successful call, carrying the affected record's id.
    /// Returns the record as stored.
    pub fn save_user(
        &self,
        db: &mut Db,
        broker: &mut SimpleBroker<UserMutated>,
        kind: EventKind,
        id: Option<usize>,
        name: String,
    ) -> (r: Result<User, StoreError>)
        requires
            old(db).wf(),
            old(broker).wf(),
        ensures
            final(db).wf(),
            final(broker).wf(),
            final(db).messages_table() == old(db).messages_table(),
            match id {
                Some(i) => {
                    if live(old(db).users_table(), i as int) {
                        &&& r == Ok::<User, StoreError>(User { id: i, name })
                        &&& final(db).users_table() == old(db).users_table().update(
                            i as int,
                            Some(User { id: i, name }),
                        )
                        &&& final(broker)@ == publish_transition(
                            old(broker)@,
                            kind,
                            UserMutated { mutation_type: MutationType::Updated, id: i },
                        )
                    } else {
                        &&& r == Err::<User, StoreError>(StoreError::UserNotFound)
                        &&& final(db).users_table() == old(db).users_table()
                        &&& final(broker)@ == old(broker)@
                    }
                },
                None => ({
                    let u = r->Ok_0;
                    &&& r is Ok
                    &&& u.name == name
                    &&& slot_filled(
                        old(db).users_table(),
                        final(db).users_table(),
                        u.id as int,
                        u,
                    )
                    &&& final(broker)@ == publish_transition(
                        old(broker)@,
                        kind,
                        UserMutated { mutation_type: MutationType::Created, id: u.id },
                    )
                }),
            },
    {
        match id {
            Some(i) => {
                if i < db.users.len() && db.users[i].is_some() {
                    let u = User { id: i, name };
                    db.users[i] = Some(u.clone());
                    proof {
                        assert forall|j: int| live(db.users@, j) implies (
                        #[trigger] db.users@[j])->Some_0.id == j by {
                            if j != i {
                                assert(db.users@[j] == old(db).users@[j]);
                            }
                        }
                    }
                    broker.publish(kind, UserMutated::new(MutationType::Updated, i));
                    Ok(u)
                } else {
                    Err(StoreError::UserNotFound)
                }
            },
            None => {
                let h = vacant_key(&db.users);
                let u = User { id: h, name };
                if h < db.users.len() {
                    db.users[h] = Some(u.clone());
                } else {
                    db.users.push(Some(u.clone()));
                }
                proof {
                    assert forall|j: int| live(db.users@, j) implies (
                    #[trigger] db.users@[j])->Some_0.id == j by {
                        if j != h {
                            assert(db.users@[j] == old(db).users@[j]);
                        }
                    }
                }
                broker.publish(kind, UserMutated::new(MutationType::Created, h));
                Ok(u)
            },
        }
    }

    /// Creates a message (no id given: requires a sender, keys a fresh or
    /// recycled slot with the new record and publishes a `Created` event), or
    /// updates one (id given: replaces the live record's text, keeping its
    /// sender, and publishes an `Updated` event; or returns `MessageNotFound`
    /// and changes and publishes nothing). Exactly one event is published per
    /// successful call, carrying the affected record's id.
    pub fn save_message(
        &self,
        db: &mut Db,
        broker: &mut SimpleBroker<MessageMutated>,
        kind: EventKind,
        id: Option<usize>,
        user_id: Option<usize>,
        text: String,
    ) -> (r: Result<Message, StoreError>)
        requires
            old(db).wf(),
            old(broker).wf(),
        ensures
            final(db).wf(),
            final(broker).wf(),
            final(db).users_table() == old(db).users_table(),
            match id {
                Some(i) => {
                    if live(old(db).messages_table(), i as int) {
                        let m0 = old(db).messages_table()[i as int]->Some_0;
                        let m = Message { id: i, user_id: m0.user_id, text };
                        &&& r == Ok::<Message, StoreError>(m)
                        &&& final(db).messages_table() == old(db).messages_table().update(
                            i as int,
                            Some(m),
                        )
                        &&& final(broker)@ == publish_transition(
                            old(broker)@,
                            kind,
                            MessageMutated { mutation_type: MutationType::Updated, id: i },
                        )
                    } else {
                        &&& r == Err::<Message, StoreError>(StoreError::MessageNotFound)
                        &&& final(db).messages_table() == old(db).messages_table()
                        &&& final(broker)@ == old(broker)@
                    }
                },
                None => match user_id {
                    Some(uid) => ({
                        let m = r->Ok_0;
                        &&& r is Ok
                        &&& m.user_id == uid
                        &&& m.text == text
                        &&& slot_filled(
                            old(db).messages_table(),
                            final(db).messages_table(),
                            m.id as int,
                            m,
                        )
                        &&& final(broker)@ == publish_transition(
                            old(broker)@,
                            kind,
                            MessageMutated { mutation_type: MutationType::Created, id: m.id },
                        )
                    }),
                    None => {
                        &&& r == Err::<Message, StoreError>(StoreError::MissingUserId)
                        &&& final(db).messages_table() == old(db).messages_table()
                        &&& final(broker)@ == old(broker)@
                    },
                },
            },
    {
        match id {
            Some(i) => {
                if i < db.messages.len() && db.messages[i].is_some() {
                    let sender = match &db.messages[i] {
                        Some(m0) => m0.user_id,
                        None => 0,
                    };
                    let m = Message { id: i, user_id: sender, text };
                    db.messages[i] = Some(m.clone());
                    proof {
                        assert forall|j: int| live(db.messages@, j) implies (
                        #[trigger] db.messages@[j])->Some_0.id == j by {
                            if j != i {
                                assert(db.messages@[j] == old(db).messages@[j]);
                            }
                        }
                    }
                    broker.publish(kind, MessageMutated::new(MutationType::Updated, i));
                    Ok(m)
                } else {
                    Err(StoreError::MessageNotFound)
                }
            },
            None => {
                match user_id {
                    Some(uid) => {
                        let h = vacant_key(&db.messages);
                        let m = Message { id: h, user_id: uid, text };
                        if h < db.messages.len() {
                            db.messages[h] = Some(m.clone());
                        } else {
                            db.messages.push(Some(m.clone()));
                        }
                        proof {
                            assert forall|j: int| live(db.messages@, j) implies (
                            #[trigger] db.messages@[j])->Some_0.id == j by {
                                if j != h {
                                    assert(db.messages@[j] == old(db).messages@[j]);
                                }
                            }
                        }
                        broker.publish(kind, MessageMutated::new(MutationType::Created, h));
                        Ok(m)
                    },
                    None => Err(StoreError::MissingUserId),
                }
            },
        }
    }

    /// Deletes the message with the given id, publishing a `Deleted` event,
    /// and answers whether anything was deleted; a miss changes and publishes
    /// nothing.
    pub fn delete_message(
        &self,
        db: &mut Db,
        broker: &mut SimpleBroker<MessageMutated>,
        kind: EventKind,
        id: usize,
    ) -> (deleted: bool)
        requires
            old(db).wf(),
            old(broker).wf(),
        ensures
            final(db).wf(),
            final(broker).wf(),
            final(db).users_table() == old(db).users_table(),
            if live(old(db).messages_table(), id as int) {
                &&& deleted
                &&& final(db).messages_table() == old(db).messages_table().update(
                    id as int,
                    None,
                )
                &&& final(broker)@ == publish_transition(
                    old(broker)@,
                    kind,
                    MessageMutated { mutation_type: MutationType::Deleted, id },
                )
            } else {
                &&& !deleted
                &&& final(db).messages_table() == old(db).messages_table()
                &&& final(broker)@ == old(broker)@
            },
    {
        if id < db.messages.len() && db.messages[id].is_some() {
            db.messages[id] = None;
            proof {
                assert forall|j: int| live(db.messages@, j) implies (
                #[trigger] db.messages@[j])->Some_0.id == j by {
                    assert(db.messages@[j] == old(db).messages@[j]);
                }
            }
            broker.publish(kind, MessageMutated::new(MutationType::Deleted, id));
            true
        } else {
            false
        }
    }
}

} // verus!
