//! A connection kept as a ring of packets with exact timestamps.

use vstd::prelude::*;
use crate::machine::connection::ConnectionQueue;
use crate::machine::packet::PacketRing;
use crate::resources::pipe::transit_complete;
use crate::resources::resource::ResourceID;

verus! {

/// Number of ticks an item spends in a connection.
pub type ConnectionDuration = u16;

/// A connection whose items carry the tick at which they complete their
/// transit. It tells the time exactly at every tick.
pub struct ConnectionLong(PacketRing);

impl ConnectionLong {
    /// An empty connection of `length` slots.
    pub fn new(length: ConnectionDuration) -> (connection: Self)
        ensures
            connection.wf(),
            connection.length() == length,
            connection.packets() == Seq::<(u32, ResourceID)>::empty(),
    {
        Self(PacketRing::new(length))
    }

    /// The connection is ready by the transit rule at every tick.
    pub proof fn lemma_exact(&self, tick: u32)
        requires
            self.wf(),
        ensures
            self.exact_at(tick),
            self.ready(tick) == transit_complete(self.packets(), self.length(), tick),
    {
    }
}

impl ConnectionQueue for ConnectionLong {
    closed spec fn wf(&self) -> bool {
        self.0.wf()
    }

    closed spec fn length(&self) -> nat {
        self.0.length()
    }

    closed spec fn packets(&self) -> Seq<(u32, ResourceID)> {
        self.0.packets()
    }

    closed spec fn ready(&self, tick: u32) -> bool {
        transit_complete(self.0.packets(), self.0.length(), tick)
    }

    closed spec fn exact_at(&self, tick: u32) -> bool {
        true
    }

    proof fn lemma_bounded(&self) {
        self.0.lemma_bounded();
    }

    proof fn lemma_ready(&self, tick: u32) {
    }

    fn duration(&self) -> (duration: u32) {
        self.0.duration()
    }

    fn enqueue_unchecked(&mut self, tick: u32, resource: ResourceID) {
        self.0.enqueue(tick, resource);
    }

    fn consume_unchecked(&mut self) {
        self.0.consume();
    }

    fn get_unchecked(&self) -> (resource: ResourceID) {
        self.0.peek().1
    }

    fn is_full(&self) -> (full: bool) {
        self.0.is_full()
    }

    fn is_empty(&self) -> (empty: bool) {
        self.0.is_empty()
    }

    fn is_ready_to_consume(&self, tick: u32) -> (ready: bool) {
        self.0.is_ready(tick)
    }

    fn resolve(&self, factory_tick: u32) -> (slots: Vec<Option<ResourceID>>) {
        self.0.resolve(factory_tick)
    }
}

} // verus!
