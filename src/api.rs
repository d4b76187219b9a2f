//! What the HTTP queries answer, from the stores.

use vstd::prelude::*;
use crate::measurements::Measurements;
use crate::signal::Signal;
use crate::store::{after_publish, SnapshotStore};

verus! {

/// HTTP status of a reply that carries a snapshot.
pub const STATUS_OK: u16 = 200;

/// HTTP status of a reply to a query that arrives before the first sample.
pub const STATUS_NO_CONTENT: u16 = 204;

/// A query's answer: the latest snapshot, or an explicit absence.
#[derive(Clone, Copy, Debug, PartialEq, Eq, Structural)]
pub enum Reply<T> {
    Found(T),
    NoContent,
}

/// The reply to a query on a store holding `held`.
pub open spec fn reply_of<T>(held: Option<T>) -> Reply<T> {
    match held {
        Some(v) => Reply::Found(v),
        None => Reply::NoContent,
    }
}

pub open spec fn status_of<T>(reply: Reply<T>) -> u16 {
    match reply {
        Reply::Found(_) => STATUS_OK,
        Reply::NoContent => STATUS_NO_CONTENT,
    }
}

impl<T> Reply<T> {
    /// The HTTP status that goes with the reply.
    pub fn status(&self) -> (r: u16)
        ensures
            r == status_of(*self),
    {
        match self {
            Reply::Found(_) => STATUS_OK,
            Reply::NoContent => STATUS_NO_CONTENT,
        }
    }
}

/// Answers a query from one store.
pub fn reply<T: Copy>(store: &SnapshotStore<T>) -> (r: Reply<T>)
    ensures
        r == reply_of(store@),
{
    match store.read() {
        Some(v) => Reply::Found(v),
        None => Reply::NoContent,
    }
}

/// Answers `GET /measurements`.
pub fn get_measurements(store: &SnapshotStore<Measurements>) -> (r: Reply<Measurements>)
    ensures
        r == reply_of(store@),
{
    reply(store)
}

/// Answers `GET /signal`.
pub fn get_signal(store: &SnapshotStore<Signal>) -> (r: Reply<Signal>)
    ensures
        r == reply_of(store@),
{
    reply(store)
}

/// A query answers "no content" exactly when its store is empty, and
/// otherwise "ok" with the snapshot that was published last.
pub proof fn law_reply_follows_store<T>(held: Option<T>, v: T)
    ensures
        reply_of(after_publish(held, v)) == Reply::Found(v),
        (status_of(reply_of(held)) == STATUS_NO_CONTENT) <==> held is None,
        (status_of(reply_of(held)) == STATUS_OK) <==> held is Some,
        held is Some ==> reply_of(held) == Reply::Found(held->Some_0),
{
}

} // verus!
