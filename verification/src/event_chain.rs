//! Digest-keyed event records, as used by the older hash-keyed event
//! store of the original server.

use vstd::prelude::*;
use crate::events::{EventType, PrivateEvent, PublicEvent};
use crate::ext::hash64;

verus! {

/// A type that can be stored under its own 64-bit digest.
pub trait EventLike: std::hash::Hash + PartialEq + Eq {

}

impl EventLike for PrivateEvent {

}

impl EventLike for PublicEvent {

}

impl<Prv: EventLike, Pub: EventLike> EventLike for EventType<Prv, Pub> {

}

/// An event record keyed by the digest of its value.
#[derive(Debug)]
pub struct Event<T: EventLike> {
    pub hash: u64,
    pub value: T,
}

impl<T: EventLike> Event<T> {
    /// Wraps a value together with its digest. Nothing is known of the
    /// digest itself; the value is stored unchanged.
    pub fn new(value: T) -> (r: Self)
        ensures
            r.value == value,
    {
        let hash = hash64(&value);
        Event { hash, value }
    }
}

} // verus!
