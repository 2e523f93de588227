//! Event kinds and the change-event payloads the store publishes.

use vstd::prelude::*;

verus! {

/// Identifier of one event kind: the registry's lookup key. Events of one
/// kind share one subscriber set, so all events published under one kind must
/// carry the same payload type; the broker's type parameter enforces that.
#[derive(Clone, Copy, PartialEq, Eq, Structural, Debug)]
pub struct EventKind(pub u64);

/// How a record was changed by a mutation.
#[derive(Clone, Copy, PartialEq, Eq, Structural, Debug)]
pub enum MutationType {
    Created,
    Updated,
    Deleted,
}

/// The change event published when a message record is created, updated or
/// deleted: the way it changed and the affected record's id.
#[derive(Clone, Copy, PartialEq, Eq, Structural, Debug)]
pub struct MessageMutated {
    pub mutation_type: MutationType,
    pub id: usize,
}

impl MessageMutated {
    /// A change event for the message with slot id `id`.
    pub fn new(mutation_type: MutationType, id: usize) -> (e: Self)
        ensures
            e == (MessageMutated { mutation_type, id }),
    {
        MessageMutated { mutation_type, id }
    }

    /// How the message was modified.
    pub fn mutation_type(&self) -> (t: MutationType)
        ensures
            t == self.mutation_type,
    {
        self.mutation_type
    }
}

/// The change event published when a user record is created or updated: the
/// way it changed and the affected record's id.
#[derive(Clone, Copy, PartialEq, Eq, Structural, Debug)]
pub struct UserMutated {
    pub mutation_type: MutationType,
    pub id: usize,
}

impl UserMutated {
    /// A change event for the user with slot id `id`.
    pub fn new(mutation_type: MutationType, id: usize) -> (e: Self)
        ensures
            e == (UserMutated { mutation_type, id }),
    {
        UserMutated { mutation_type, id }
    }

    /// How the user was modified.
    pub fn mutation_type(&self) -> (t: MutationType)
        ensures
            t == self.mutation_type,
    {
        self.mutation_type
    }
}

} // verus!
