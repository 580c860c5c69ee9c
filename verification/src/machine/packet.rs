//! Packets stamped with the tick from which they may leave, and the ring
//! that holds them.

use vstd::prelude::*;
use crate::machine::ringbuffer::RingBuffer;
use crate::resources::pipe::{occupant, slot_from_output, transit_complete};
use crate::resources::resource::{ResourceID, ResourceIDInnerType};

verus! {

broadcast use {ResourceID::lemma_of_inner, ResourceID::lemma_inner_of};

/// An item in transit: the tick from which it may leave, and its resource as
/// an integer.
#[derive(Clone, Copy)]
pub struct Packet(pub u32, pub ResourceIDInnerType);

impl Default for Packet {
    /// The filler of unused slots.
    fn default() -> (packet: Self)
        ensures
            packet == Packet(0, 0),
    {
        Packet(0, 0)
    }
}

/// A queue of packets in a ring. Each packet carries the tick at which it
/// completes its transit, so nothing has to be updated as the clock advances.
pub struct PacketRing(RingBuffer<Packet>);

impl PacketRing {
    /// The representation invariant: every packet carries a resource, and a
    /// tick of leaving that is `length` after a tick of the clock.
    pub closed spec fn wf(&self) -> bool {
        &&& self.0.wf()
        &&& forall|i: int|
            0 <= i < self.0@.len() ==> (#[trigger] self.0@[i]).1 != 0 && self.0@[i].0 >= self.0.spec_capacity()
    }

    /// Number of slots, which is also the transit time in ticks.
    pub closed spec fn length(&self) -> nat {
        self.0.spec_capacity()
    }

    /// The items in flight, oldest first, each with the tick at which it
    /// entered.
    pub closed spec fn packets(&self) -> Seq<(u32, ResourceID)> {
        Seq::new(
            self.0@.len(),
            |i: int| ((self.0@[i].0 - self.0.spec_capacity()) as u32, ResourceID::of(self.0@[i].1)),
        )
    }

    /// A well-formed ring never holds more items than it has slots.
    pub proof fn lemma_bounded(&self)
        requires
            self.wf(),
        ensures
            self.packets().len() <= self.length(),
            self.length() <= u16::MAX,
    {
        self.0.lemma_bounded();
    }

    /// An empty ring of `length` slots.
    pub fn new(length: u16) -> (ring: Self)
        ensures
            ring.wf(),
            ring.length() == length,
            ring.packets() == Seq::<(u32, ResourceID)>::empty(),
    {
        Self(RingBuffer::new(length))
    }

    /// Number of slots, which is also the transit time in ticks.
    pub fn duration(&self) -> (duration: u32)
        requires
            self.wf(),
        ensures
            duration == self.length(),
    {
        self.0.capacity() as u32
    }

    /// Enqueues `resource`, stamped with `tick`. The ring must not be full,
    /// and `tick + length` must lie in the range of the clock.
    pub fn enqueue(&mut self, tick: u32, resource: ResourceID)
        requires
            old(self).wf(),
            old(self).packets().len() < old(self).length(),
            tick + old(self).length() <= u32::MAX,
        ensures
            final(self).wf(),
            final(self).length() == old(self).length(),
            final(self).packets() == old(self).packets().push((tick, resource)),
    {
        let arrival = tick + self.0.capacity() as u32;
        self.0.push_back(Packet(arrival, resource.into_inner()));
        assert(self.packets() =~= old(self).packets().push((tick, resource)));
    }

    /// Removes the oldest item. The ring must not be empty.
    pub fn consume(&mut self)
        requires
            old(self).wf(),
            old(self).packets().len() > 0,
        ensures
            final(self).wf(),
            final(self).length() == old(self).length(),
            final(self).packets() == old(self).packets().drop_first(),
    {
        self.0.pop_front();
        assert(self.packets() =~= old(self).packets().drop_first());
    }

    /// The oldest item: the tick from which it may leave, and its resource.
    /// The ring must not be empty.
    pub fn peek(&self) -> (head: (u32, ResourceID))
        requires
            self.wf(),
            self.packets().len() > 0,
        ensures
            head.0 == self.packets()[0].0 + self.length(),
            head.1 == self.packets()[0].1,
    {
        let front = self.0.front();
        (front.0, ResourceID::from_inner_unchecked(front.1))
    }

    /// Whether every slot is taken.
    pub fn is_full(&self) -> (full: bool)
        requires
            self.wf(),
        ensures
            full == (self.packets().len() == self.length()),
    {
        proof {
            self.0.lemma_bounded();
        }
        self.0.len() >= self.0.capacity()
    }

    /// Whether no item is in flight.
    pub fn is_empty(&self) -> (empty: bool)
        requires
            self.wf(),
        ensures
            empty == (self.packets().len() == 0),
    {
        self.0.is_empty()
    }

    /// Whether the oldest item has completed its transit at `tick`.
    pub fn is_ready(&self, tick: u32) -> (ready: bool)
        requires
            self.wf(),
        ensures
            ready == transit_complete(self.packets(), self.length(), tick),
    {
        !self.0.is_empty() && self.0.front().0 <= tick
    }

    /// Which resource stands in each slot at `factory_tick`, slot 0 being the
    /// output end.
    pub fn resolve(&self, factory_tick: u32) -> (slots: Vec<Option<ResourceID>>)
        requires
            self.wf(),
        ensures
            slots@.len() == self.length(),
            forall|slot: int|
                0 <= slot < slots@.len() ==> #[trigger] slots@[slot] == occupant(
                    self.packets(),
                    self.length(),
                    factory_tick,
                    slot,
                    self.packets().len(),
                ),
    {
        proof {
            self.0.lemma_bounded();
        }
        let capacity = self.0.capacity();
        let mut result: Vec<Option<ResourceID>> = Vec::new();
        let mut made: u16 = 0;
        while made < capacity
            invariant
                made <= capacity,
                result@.len() == made,
                forall|slot: int| 0 <= slot < made ==> #[trigger] result@[slot] is None,
            decreases capacity - made,
        {
            result.push(None);
            made += 1;
        }
        let len = self.0.len();
        let mut i: u16 = 0;
        while i < len
            invariant
                self.wf(),
                i <= len,
                len == self.packets().len(),
                capacity == self.length(),
                len <= capacity,
                result@.len() == capacity,
                forall|slot: int|
                    0 <= slot < capacity ==> #[trigger] result@[slot] == occupant(
                        self.packets(),
                        self.length(),
                        factory_tick,
                        slot,
                        i as nat,
                    ),
            decreases len - i,
        {
            let packet = *self.0.get(i);
            let entered = packet.0 - capacity as u32;
            let waited = if factory_tick >= entered {
                factory_tick - entered
            } else {
                0
            };
            let free = (capacity - i - 1) as u32;
            let moved = if waited < free {
                waited
            } else {
                free
            };
            let idx = (capacity as u32 - 1 - moved) as usize;
            assert(idx == slot_from_output(self.packets(), self.length(), factory_tick, i as int));
            result.set(idx, Some(ResourceID::from_inner_unchecked(packet.1)));
            i += 1;
        }
        result
    }
}

} // verus!
