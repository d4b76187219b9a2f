//! A single-slot store of the latest value of one metric.
//!
//! The store itself is plain data; whoever shares it between tasks puts it
//! behind a read-write lock, so that a reader sees either the old or the new
//! value of a publish, never a mixture.

use vstd::prelude::*;
use crate::error::SampleError;

verus! {

/// The latest successfully computed value, or nothing before the first one.
pub struct SnapshotStore<T> {
    latest: Option<T>,
}

/// What a store holds after a publish of `v`: `v`, whatever it held before.
pub open spec fn after_publish<T>(held: Option<T>, v: T) -> Option<T> {
    Some(v)
}

/// What a store holds after one sampling cycle: the new value where the
/// cycle succeeded, the old one, unchanged, where it failed.
pub open spec fn after_sample<T>(held: Option<T>, sample: Result<T, SampleError>) -> Option<T> {
    match sample {
        Ok(v) => after_publish(held, v),
        Err(_) => held,
    }
}

impl<T> View for SnapshotStore<T> {
    type V = Option<T>;

    closed spec fn view(&self) -> Option<T> {
        self.latest
    }
}

impl<T: Copy> SnapshotStore<T> {
    /// A store that has never been published to.
    pub fn new() -> (r: Self)
        ensures
            r@ == None::<T>,
    {
        SnapshotStore { latest: None }
    }

    /// Replaces the held value with `value`.
    pub fn publish(&mut self, value: T)
        ensures
            final(self)@ == after_publish(old(self)@, value),
    {
        self.latest = Some(value);
    }

    /// The held value, or `None` before the first publish.
    pub fn read(&self) -> (r: Option<T>)
        ensures
            r == self@,
    {
        self.latest
    }

    /// Applies the outcome of one sampling cycle: publishes a value, and
    /// leaves the store as it was on a failure. Returns whether it published.
    pub fn record(&mut self, sample: Result<T, SampleError>) -> (published: bool)
        ensures
            final(self)@ == after_sample(old(self)@, sample),
            published == sample is Ok,
    {
        match sample {
            Ok(v) => {
                self.publish(v);
                true
            },
            Err(_) => false,
        }
    }
}

/// A store reads nothing before its first publish, then always the value of
/// the last publish, which replaces the previous one whole.
pub proof fn law_last_publish_wins<T>(v1: T, v2: T)
    ensures
        after_publish(None::<T>, v1) == Some(v1),
        after_publish(after_publish(None::<T>, v1), v2) == Some(v2),
{
}

/// A failed sampling cycle leaves whatever was published before exactly as
/// it was, and a store that held a value still holds one.
pub proof fn law_failure_keeps_snapshot<T>(held: Option<T>, e: SampleError)
    ensures
        after_sample(held, Err(e)) == held,
        held is Some ==> after_sample(held, Err(e)) is Some,
{
}

/// Once a store holds a value it never holds nothing again, whatever the
/// following cycles yield.
pub proof fn law_never_reverts<T>(held: Option<T>, sample: Result<T, SampleError>)
    requires
        held is Some,
    ensures
        after_sample(held, sample) is Some,
{
}

} // verus!
