//! The registry as contracts see it: a map from client identifier to
//! client record, and what each operation makes of such a map.

use crate::channel::Outbound;
use crate::client::ClientView;
use crate::error::RegistryError;
use vstd::prelude::*;

verus! {

/// The mathematical content of a registry.
pub type Directory = Map<Seq<char>, ClientView>;

/// What a registration under `id` reports: an identifier is registered
/// once.
pub open spec fn register_outcome(d: Directory, id: Seq<char>) -> Result<(), RegistryError> {
    if d.contains_key(id) {
        Err(RegistryError::AlreadyRegistered)
    } else {
        Ok(())
    }
}

/// What an unregistration of `id` reports.
pub open spec fn unregister_outcome(d: Directory, id: Seq<char>) -> Result<(), RegistryError> {
    if d.contains_key(id) {
        Ok(())
    } else {
        Err(RegistryError::NotFound)
    }
}

/// What an operation on the record of `id` reports: it needs the record
/// to be there.
pub open spec fn lookup_outcome(d: Directory, id: Seq<char>) -> Result<(), RegistryError> {
    if d.contains_key(id) {
        Ok(())
    } else {
        Err(RegistryError::UnknownClient)
    }
}

/// The record that a registration creates: the supplied topics, and no
/// connection.
pub open spec fn fresh_record(user_id: usize, topics: Set<Seq<char>>) -> ClientView {
    ClientView { user_id, topics, sender: None }
}

/// The directory after a registration. A registration of an identifier
/// that is already present is rejected and changes nothing.
pub open spec fn after_register(
    d: Directory,
    id: Seq<char>,
    user_id: usize,
    topics: Set<Seq<char>>,
) -> Directory {
    if d.contains_key(id) {
        d
    } else {
        d.insert(id, fresh_record(user_id, topics))
    }
}

/// The directory after the removal of a record, by unregistration or by
/// the end of its connection.
pub open spec fn after_removal(d: Directory, id: Seq<char>) -> Directory {
    d.remove(id)
}

/// The directory after a connection attaches to a record.
pub open spec fn after_attach(d: Directory, id: Seq<char>, handle: Outbound) -> Directory {
    if d.contains_key(id) {
        d.insert(id, ClientView { sender: Some(handle), ..d[id] })
    } else {
        d
    }
}

/// The directory after a record subscribes to a topic.
pub open spec fn after_add_topic(d: Directory, id: Seq<char>, topic: Seq<char>) -> Directory {
    if d.contains_key(id) {
        d.insert(id, ClientView { topics: d[id].topics.insert(topic), ..d[id] })
    } else {
        d
    }
}

/// The directory after a record ends its subscription to a topic.
pub open spec fn after_remove_topic(d: Directory, id: Seq<char>, topic: Seq<char>) -> Directory {
    if d.contains_key(id) {
        d.insert(id, ClientView { topics: d[id].topics.remove(topic), ..d[id] })
    } else {
        d
    }
}

/// The clients that a payload published to `topic` is dispatched to: those
/// that subscribe to it and have a connection attached.
pub open spec fn subscribers(d: Directory, topic: Seq<char>) -> Set<Seq<char>> {
    Set::new(|id: Seq<char>| d.contains_key(id) && d[id].receives(topic))
}

} // verus!
