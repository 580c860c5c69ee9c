//! A connection of up to sixteen slots that keeps four bits of each item's
//! timestamp.

use vstd::prelude::*;
use crate::machine::connection::ConnectionQueue;
use crate::machine::nibbles::{drop_nibble, get_nibble, lemma_nibble_range, nibble, set_nibble};
use crate::resources::pipe::{lemma_newest_is_occupant, newest_in, occupant, slot_from_output};
use crate::resources::resource::{ResourceID, ResourceIDInnerType};

verus! {

broadcast use {ResourceID::lemma_of_inner, ResourceID::lemma_inner_of};

/// A connection of at most sixteen slots in an inline array and a few small
/// words. Of the tick at which an item completes its transit it keeps the low
/// four bits only, and reads the rest off the tick it is asked about.
///
/// That reading is right for a window of sixteen ticks. For up to fifteen
/// slots the window opens with the tick at which an item entered. For sixteen
/// slots it opens one tick later, so that it holds the tick at which the
/// transit is complete: such a connection takes an item that has just
/// entered for one that has arrived, and is to be asked from the next tick
/// on. The connection tells the time exactly at a tick that lies in the
/// window of every item.
pub struct ConnectionShort {
    capacity: u8,
    len: u8,
    queue: u64,
    resources: [ResourceIDInnerType; 16],
    entered: Ghost<Seq<u32>>,
}

/// By how many ticks the window of a connection of `length` slots opens
/// after the tick of entry: by one for sixteen slots, by none for fewer.
pub open spec fn window_delay(length: nat) -> int {
    if length == 16 {
        1
    } else {
        0
    }
}

/// Whether four bits suffice at `tick` for an item that entered a connection
/// of `length` slots at `entered`.
pub open spec fn within_window(entered: u32, length: nat, tick: u32) -> bool {
    entered + window_delay(length) <= tick < entered + window_delay(length) + 16
}

/// The slot, counted from the output end, in which a connection of `length`
/// slots draws its `index`-th oldest item at `tick`, going by the low four
/// bits of the tick at which the item completes its transit: that many slots
/// from the output end as ticks seem to be left, but never in front of an
/// older item.
pub open spec fn shown_slot(entered: u32, length: nat, tick: u32, index: int) -> int {
    let left = (entered + length - tick) % 16;
    if 1 <= left <= length && left - 1 > index {
        left - 1
    } else {
        index
    }
}

/// The low four bits of two ticks give the low four bits of their distance.
proof fn lemma_distance_mod_16(a: int, b: int)
    ensures
        ((a % 16) + 16 - (b % 16)) % 16 == (a - b) % 16,
{
    let k = 1 - a / 16 + b / 16;
    assert((a % 16) + 16 - (b % 16) == (a - b) + 16 * k);
    vstd::arithmetic::div_mod::lemma_mod_multiples_vanish(k, a - b, 16);
}

/// A distance between `-16` and `16` is known from its low four bits.
proof fn lemma_short_distance(d: int)
    requires
        -16 < d < 16,
    ensures
        d % 16 == if d >= 0 { d } else { d + 16 },
{
}

impl ConnectionShort {
    /// An empty connection of `capacity` slots, of which there can be at
    /// most sixteen.
    pub fn new(capacity: u8) -> (connection: Self)
        requires
            capacity <= 16,
        ensures
            connection.wf(),
            connection.length() == capacity,
            connection.packets() == Seq::<(u32, ResourceID)>::empty(),
    {
        proof {
            assert forall|i: u64| i < 16 implies nibble(0, i) == 0 by {
                lemma_nibble_range(0, i);
            }
        }
        Self { capacity, len: 0, queue: 0, resources: [0; 16], entered: Ghost(Seq::empty()) }
    }

    /// Number of slots.
    fn capacity(&self) -> (capacity: u8)
        ensures
            capacity == self.capacity,
    {
        self.capacity
    }

    /// Number of items in flight.
    fn len(&self) -> (len: u8)
        ensures
            len == self.len,
    {
        self.len
    }

    /// The slots in which the connection draws its items at `tick`, oldest
    /// item first.
    pub open spec fn shown(&self, tick: u32) -> Seq<int> {
        Seq::new(
            self.packets().len(),
            |i: int| shown_slot(self.packets()[i].0, self.length(), tick, i),
        )
    }

    /// What the connection answers at `tick`: whether it holds an item whose
    /// kept four bits, read against `tick`, say that its transit is
    /// complete. With sixteen slots that is so when the bits are those of
    /// `tick` itself.
    pub proof fn lemma_ready_at(&self, tick: u32)
        requires
            self.wf(),
        ensures
            self.ready(tick) == (self.packets().len() > 0 && (tick - (self.packets()[0].0 + self.length())) % 16
                < 16 - self.length() + window_delay(self.length())),
            self.length() <= 16,
    {
    }
}

impl ConnectionQueue for ConnectionShort {
    closed spec fn wf(&self) -> bool {
        &&& self.len <= self.capacity <= 16
        &&& self.entered@.len() == self.len
        &&& forall|i: u64|
            i < self.len ==> {
                &&& (#[trigger] self.resources@[i as int]) != 0
                &&& nibble(self.queue, i) == (self.entered@[i as int] + self.capacity) % 16
            }
        &&& forall|i: u64| self.len <= i < 16 ==> #[trigger] nibble(self.queue, i) == 0
    }

    closed spec fn length(&self) -> nat {
        self.capacity as nat
    }

    closed spec fn packets(&self) -> Seq<(u32, ResourceID)> {
        Seq::new(self.len as nat, |i: int| (self.entered@[i], ResourceID::of(self.resources@[i])))
    }

    closed spec fn ready(&self, tick: u32) -> bool {
        self.len > 0 && (tick - (self.entered@[0] + self.capacity)) % 16 < 16 - self.capacity + window_delay(
            self.capacity as nat,
        )
    }

    open spec fn exact_at(&self, tick: u32) -> bool {
        forall|i: int|
            0 <= i < self.packets().len() ==> within_window(#[trigger] self.packets()[i].0, self.length(), tick)
    }

    proof fn lemma_bounded(&self) {
    }

    proof fn lemma_ready(&self, tick: u32) {
        if self.exact_at(tick) && self.len > 0 {
            assert(within_window(self.packets()[0].0, self.length(), tick));
            lemma_short_distance(tick - (self.entered@[0] + self.capacity));
        }
    }

    fn duration(&self) -> (duration: u32) {
        self.capacity() as u32
    }

    fn enqueue_unchecked(&mut self, tick: u32, resource: ResourceID) {
        let len = self.len();
        let capacity = self.capacity();
        let arrival = tick as u64 + capacity as u64;
        assert(arrival & 0x0F == arrival % 16) by (bit_vector);
        let ghost before = *self;
        self.resources[len as usize] = resource.into_inner();
        self.queue = set_nibble(self.queue, len, (arrival & 0x0F) as u8);
        self.len += 1;
        proof {
            self.entered@ = self.entered@.push(tick);
            assert forall|i: u64| i < self.len implies {
                &&& (#[trigger] self.resources@[i as int]) != 0
                &&& nibble(self.queue, i) == (self.entered@[i as int] + self.capacity) % 16
            } by {
                if i < len {
                    assert(before.resources@[i as int] != 0);
                }
            }
            assert(self.packets() =~= old(self).packets().push((tick, resource)));
        }
    }

    fn consume_unchecked(&mut self) {
        self.len -= 1;
        self.queue = drop_nibble(self.queue);
        let mut i: usize = 0;
        while i < 15
            invariant
                i <= 15,
                self.len == old(self).len - 1,
                self.capacity == old(self).capacity,
                self.entered == old(self).entered,
                forall|j: u64|
                    j < 16 ==> #[trigger] nibble(self.queue, j) == if j < 15 {
                        nibble(old(self).queue, (j + 1) as u64)
                    } else {
                        0
                    },
                forall|j: int| 0 <= j < i ==> #[trigger] self.resources@[j] == old(self).resources@[j + 1],
                forall|j: int| i <= j < 16 ==> #[trigger] self.resources@[j] == old(self).resources@[j],
            decreases 15 - i,
        {
            self.resources[i] = self.resources[i + 1];
            i += 1;
        }
        proof {
            self.entered@ = self.entered@.drop_first();
            assert forall|i: u64| i < self.len implies {
                &&& (#[trigger] self.resources@[i as int]) != 0
                &&& nibble(self.queue, i) == (self.entered@[i as int] + self.capacity) % 16
            } by {
                assert(old(self).resources@[(i + 1) as int] != 0);
                assert(nibble(self.queue, i) == nibble(old(self).queue, (i + 1) as u64));
            }
            assert(self.packets() =~= old(self).packets().drop_first());
        }
    }

    fn get_unchecked(&self) -> (resource: ResourceID) {
        assert(self.resources@[0] != 0);
        ResourceID::from_inner_unchecked(self.resources[0])
    }

    fn is_full(&self) -> (full: bool) {
        self.len() >= self.capacity()
    }

    fn is_empty(&self) -> (empty: bool) {
        self.len() == 0
    }

    fn is_ready_to_consume(&self, tick_factory: u32) -> (ready: bool) {
        if self.len() == 0 {
            return false;
        }
        let now = tick_factory as u64;
        assert(now & 0x0F == now % 16) by (bit_vector);
        let past = (now & 0x0F) + 16 - get_nibble(self.queue, 0) as u64;
        assert(past & 0x0F == past % 16) by (bit_vector);
        proof {
            assert(self.resources@[0] != 0);
            lemma_distance_mod_16(tick_factory as int, self.entered@[0] + self.capacity);
        }
        let delay: u64 = if self.capacity() == 16 {
            1
        } else {
            0
        };
        (past & 0x0F) < 16 - self.capacity() as u64 + delay
    }

    fn resolve(&self, factory_tick: u32) -> (slots: Vec<Option<ResourceID>>)
        ensures
            forall|slot: int|
                0 <= slot < slots@.len() ==> #[trigger] slots@[slot] == newest_in(
                    self.shown(factory_tick),
                    self.packets().map_values(|packet: (u32, ResourceID)| packet.1),
                    slot,
                    self.packets().len(),
                ),
    {
        let capacity = self.capacity();
        let len = self.len();
        let mut result: Vec<Option<ResourceID>> = Vec::new();
        let mut made: u8 = 0;
        while made < capacity
            invariant
                made <= capacity,
                result@.len() == made,
                forall|slot: int| 0 <= slot < made ==> #[trigger] result@[slot] is None,
            decreases capacity - made,
        {
            result.push(None);
            made += 1;
        }
        let now = factory_tick as u64;
        assert(now & 0x0F == now % 16) by (bit_vector);
        let ghost places = self.shown(factory_tick);
        let ghost resources = self.packets().map_values(|packet: (u32, ResourceID)| packet.1);
        let mut i: u8 = 0;
        while i < len
            invariant
                self.wf(),
                i <= len,
                len == self.len,
                capacity == self.capacity,
                now == factory_tick,
                now & 0x0F == now % 16,
                places == self.shown(factory_tick),
                resources == self.packets().map_values(|packet: (u32, ResourceID)| packet.1),
                result@.len() == capacity,
                forall|slot: int|
                    0 <= slot < capacity ==> #[trigger] result@[slot] == newest_in(places, resources, slot, i as nat),
            decreases len - i,
        {
            let ahead = get_nibble(self.queue, i) as u64 + 16 - (now & 0x0F);
            assert(ahead & 0x0F == ahead % 16) by (bit_vector);
            let left = (ahead & 0x0F) as u8;
            let pos = if 1 <= left && left <= capacity && left - 1 > i {
                (left - 1) as usize
            } else {
                i as usize
            };
            proof {
                assert(self.resources@[i as int] != 0);
                lemma_distance_mod_16(self.entered@[i as int] + capacity, factory_tick as int);
                assert(pos == places[i as int]);
                assert(resources[i as int] == ResourceID::of(self.resources@[i as int]));
            }
            result.set(pos, Some(ResourceID::from_inner_unchecked(self.resources[i as usize])));
            i += 1;
        }
        proof {
            if self.exact_at(factory_tick) {
                assert forall|k: int| 0 <= k < len implies #[trigger] places[k] == slot_from_output(
                    self.packets(),
                    self.length(),
                    factory_tick,
                    k,
                ) && resources[k] == self.packets()[k].1 by {
                    let entered = self.entered@[k];
                    assert(within_window(self.packets()[k].0, self.length(), factory_tick));
                    lemma_short_distance(entered + capacity - factory_tick);
                }
                assert forall|slot: int| 0 <= slot < result@.len() implies #[trigger] result@[slot] == occupant(
                    self.packets(),
                    self.length(),
                    factory_tick,
                    slot,
                    self.packets().len(),
                ) by {
                    lemma_newest_is_occupant(
                        self.packets(),
                        self.length(),
                        factory_tick,
                        places,
                        resources,
                        slot,
                        len as nat,
                    );
                }
            }
        }
        result
    }
}

} // verus!
