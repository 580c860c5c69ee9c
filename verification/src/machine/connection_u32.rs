//! A connection kept as a buffer of packets stamped with the tick of entry.

use vstd::prelude::*;
use crate::machine::connection::ConnectionQueue;
use crate::resources::pipe::simple::PipeSimple;
use crate::resources::pipe::{elapsed, transit_complete, travelled, Pipe};
use crate::resources::resource::ResourceID;

verus! {

/// A connection of up to `u32::MAX` slots whose items carry the tick at
/// which they entered. It tells the time exactly at every tick.
pub struct ConnectionU32(PipeSimple);

impl ConnectionU32 {
    /// An empty connection of `length` slots.
    pub fn new(length: u32) -> (connection: Self)
        ensures
            connection.wf(),
            connection.length() == length,
            connection.packets() == Seq::<(u32, ResourceID)>::empty(),
    {
        Self(PipeSimple::new(length))
    }

    /// How many slots the `i`-th oldest item has moved away from the input
    /// end at `factory_tick`.
    pub fn get_packet_position(&self, factory_tick: u32, i: u32) -> (position: usize)
        requires
            self.wf(),
            i < self.packets().len(),
        ensures
            position == travelled(self.length(), i as nat, elapsed(self.packets()[i as int].0, factory_tick)),
            position < self.length(),
    {
        self.0.get_packet_position(factory_tick, i)
    }

    /// The connection is ready by the transit rule at every tick.
    pub proof fn lemma_exact(&self, tick: u32)
        requires
            self.wf(),
        ensures
            self.exact_at(tick),
            self.ready(tick) == transit_complete(self.packets(), self.length(), tick),
    {
    }
}

impl ConnectionQueue for ConnectionU32 {
    closed spec fn wf(&self) -> bool {
        self.0.wf()
    }

    closed spec fn length(&self) -> nat {
        self.0.length()
    }

    closed spec fn packets(&self) -> Seq<(u32, ResourceID)> {
        self.0.packets()
    }

    closed spec fn ready(&self, tick: u32) -> bool {
        transit_complete(self.0.packets(), self.0.length(), tick)
    }

    closed spec fn exact_at(&self, tick: u32) -> bool {
        true
    }

    proof fn lemma_bounded(&self) {
        self.0.lemma_bounded();
    }

    proof fn lemma_ready(&self, tick: u32) {
    }

    fn duration(&self) -> (duration: u32) {
        self.0.capacity()
    }

    fn enqueue_unchecked(&mut self, tick: u32, resource: ResourceID) {
        self.0.enqueue_unchecked(tick, resource);
    }

    fn consume_unchecked(&mut self) {
        self.0.consume_unchecked();
    }

    fn get_unchecked(&self) -> (resource: ResourceID) {
        self.0.get_unchecked()
    }

    fn is_full(&self) -> (full: bool) {
        self.0.is_full()
    }

    fn is_empty(&self) -> (empty: bool) {
        self.0.is_empty()
    }

    fn is_ready_to_consume(&self, tick: u32) -> (ready: bool) {
        self.0.is_ready_to_consume(tick)
    }

    fn resolve(&self, factory_tick: u32) -> (slots: Vec<Option<ResourceID>>) {
        self.0.resolve(factory_tick)
    }
}

} // verus!
