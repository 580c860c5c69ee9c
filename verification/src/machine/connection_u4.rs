//! A connection of up to sixteen slots packed in a few machine words, with
//! four bits of timing per item.

use vstd::prelude::*;
use crate::machine::connection::ConnectionQueue;
use crate::machine::nibbles::{drop_nibble, get_nibble, lemma_nibble_range, nibble, set_nibble};
use crate::resources::pipe::{
    drawn_alike, lemma_occupant_agrees, occupant, slot_from_output, transit_complete,
};
use crate::resources::resource::ResourceID;

verus! {

/// A connection of one to sixteen slots that lives in an inline array and
/// one 64-bit word, without any allocation.
///
/// The connection keeps a clock of its own, which lags behind the clock of
/// the factory and catches up when an item is enqueued. For each item the
/// word holds, in four bits, how many ticks after the connection's clock the
/// item may leave; an item that may already leave at the connection's clock
/// is remembered as leaving exactly then, that is, as if it had entered
/// `length` ticks before the clock. The connection answers by the transit
/// rule for the items as it remembers them, and therefore tells the time
/// exactly at every tick from its own clock on, which is one tick after the
/// latest enqueue.
pub struct ConnectionU4 {
    tail: u8,
    capacity: u8,
    tick: u64,
    index: u64,
    queue: [Option<ResourceID>; 16],
    entered: Ghost<Seq<u32>>,
}

impl ConnectionU4 {
    /// The clock of the connection: the first tick from which it tells the
    /// time exactly. It is zero for a new connection, and an enqueue moves it
    /// forward to the tick after the enqueue.
    pub closed spec fn clock(&self) -> nat {
        self.tick as nat
    }

    /// The items as the connection remembers them, oldest first: each with
    /// the tick at which it entered, or with the tick that lies `length`
    /// before the connection's clock if that is later.
    pub closed spec fn remembered(&self) -> Seq<(u32, ResourceID)> {
        Seq::new(
            self.tail as nat,
            |i: int| ((self.tick + nibble(self.index, i as u64) - self.capacity) as u32, self.queue@[i]->0),
        )
    }

    /// An empty connection of `capacity` slots, of which there must be one to
    /// sixteen.
    pub fn new(capacity: usize) -> (connection: Self)
        requires
            0 < capacity <= 16,
        ensures
            connection.wf(),
            connection.length() == capacity,
            connection.packets() == Seq::<(u32, ResourceID)>::empty(),
            connection.clock() == 0,
    {
        proof {
            assert forall|i: u64| i < 16 implies nibble(0, i) == 0 by {
                lemma_nibble_range(0, i);
            }
        }
        Self { tail: 0, capacity: capacity as u8, tick: 0, index: 0, queue: [None; 16], entered: Ghost(Seq::empty()) }
    }

    /// What the connection remembers of its items: every resource, and every
    /// tick of entry that does not lie more than `length` before its clock.
    pub proof fn lemma_remembered(&self)
        requires
            self.wf(),
        ensures
            self.remembered().len() == self.packets().len(),
            forall|i: int|
                0 <= i < self.packets().len() ==> {
                    &&& (#[trigger] self.remembered()[i]).1 == self.packets()[i].1
                    &&& self.remembered()[i].0 == if self.packets()[i].0 + self.length() >= self.clock() {
                        self.packets()[i].0 as int
                    } else {
                        self.clock() - self.length()
                    }
                },
    {
        assert forall|i: int| 0 <= i < self.packets().len() implies {
            &&& (#[trigger] self.remembered()[i]).1 == self.packets()[i].1
            &&& self.remembered()[i].0 == if self.packets()[i].0 + self.length() >= self.clock() {
                self.packets()[i].0 as int
            } else {
                self.clock() - self.length()
            }
        } by {
            assert(self.queue@[i] is Some);
        }
    }

    /// The connection answers by the transit rule for the items as it
    /// remembers them.
    pub proof fn lemma_ready_at(&self, tick: u32)
        requires
            self.wf(),
        ensures
            self.ready(tick) == transit_complete(self.remembered(), self.length(), tick),
    {
        if self.tail > 0 {
            assert(self.queue@[0] is Some);
        }
    }

    /// Moves the connection's clock forward to `to` and counts the ticks
    /// that pass off every item's remaining time.
    fn do_advance(&mut self, to: u64)
        requires
            old(self).wf(),
            old(self).tick < to <= u32::MAX + 1,
        ensures
            final(self).wf(),
            final(self).length() == old(self).length(),
            final(self).packets() == old(self).packets(),
            final(self).tick == to,
            final(self).tail == old(self).tail,
    {
        let delta = to - self.tick;
        let step: u8 = if delta > 15 {
            15
        } else {
            delta as u8
        };
        let mut index = self.index;
        let mut i: u8 = 0;
        while i < self.tail
            invariant
                i <= self.tail <= 16,
                step as int == if delta > 15 { 15 } else { delta as int },
                *self == *old(self),
                forall|j: u64|
                    j < 16 ==> #[trigger] nibble(index, j) == if j < i {
                        if nibble(self.index, j) > step {
                            (nibble(self.index, j) - step) as u64
                        } else {
                            0
                        }
                    } else {
                        nibble(self.index, j)
                    },
            decreases self.tail - i,
        {
            let left = get_nibble(index, i);
            let kept = if left > step {
                left - step
            } else {
                0
            };
            index = set_nibble(index, i, kept);
            i += 1;
        }
        proof {
            assert forall|j: u64| j < 16 implies nibble(self.index, j) < 16 by {
                lemma_nibble_range(self.index, j);
            }
        }
        self.index = index;
        self.tick = to;
    }

    /// Takes the oldest item out of the word and the array.
    fn do_consume(&mut self)
        requires
            old(self).wf(),
            old(self).tail > 0,
        ensures
            final(self).tail == old(self).tail,
            final(self).capacity == old(self).capacity,
            final(self).tick == old(self).tick,
            final(self).entered == old(self).entered,
            forall|j: u64|
                j < 16 ==> #[trigger] nibble(final(self).index, j) == if j < 15 {
                    nibble(old(self).index, (j + 1) as u64)
                } else {
                    0
                },
            forall|j: int| 0 <= j < 15 ==> #[trigger] final(self).queue@[j] == old(self).queue@[j + 1],
            final(self).queue@[15] is None,
    {
        self.index = drop_nibble(self.index);
        let mut i: usize = 0;
        while i < 15
            invariant
                i <= 15,
                self.tail == old(self).tail,
                self.capacity == old(self).capacity,
                self.tick == old(self).tick,
                self.entered == old(self).entered,
                forall|j: u64|
                    j < 16 ==> #[trigger] nibble(self.index, j) == if j < 15 {
                        nibble(old(self).index, (j + 1) as u64)
                    } else {
                        0
                    },
                forall|j: int| 0 <= j < i ==> #[trigger] self.queue@[j] == old(self).queue@[j + 1],
                forall|j: int| i <= j < 16 ==> #[trigger] self.queue@[j] == old(self).queue@[j],
            decreases 15 - i,
        {
            self.queue[i] = self.queue[i + 1];
            i += 1;
        }
        self.queue[15] = None;
    }

    /// Whether the oldest item may leave at the connection's own clock.
    fn waiting_to_send(&self) -> (waiting: bool)
        requires
            self.wf(),
        ensures
            waiting == (self.tail > 0 && nibble(self.index, 0) == 0),
    {
        let index = self.index;
        assert(index & 0xF == nibble(index, 0)) by (bit_vector);
        (self.tail > 0) && (index & 0xF == 0)
    }

    /// The resource in place `idx` of the array.
    fn get(&self, idx: usize) -> (resource: Option<ResourceID>)
        requires
            idx < 16,
        ensures
            resource == self.queue@[idx as int],
    {
        self.queue[idx]
    }
}

impl ConnectionQueue for ConnectionU4 {
    closed spec fn wf(&self) -> bool {
        &&& 0 < self.capacity <= 16
        &&& self.tail <= self.capacity
        &&& self.entered@.len() == self.tail
        &&& self.tick <= u32::MAX + 1
        &&& forall|i: u64|
            i < self.tail ==> {
                &&& (#[trigger] self.queue@[i as int]) is Some
                &&& self.tick + nibble(self.index, i) == if self.entered@[i as int] + self.capacity >= self.tick {
                    self.entered@[i as int] + self.capacity
                } else {
                    self.tick as int
                }
            }
        &&& forall|i: u64| self.tail <= i < 16 ==> #[trigger] nibble(self.index, i) == 0
    }

    closed spec fn length(&self) -> nat {
        self.capacity as nat
    }

    closed spec fn packets(&self) -> Seq<(u32, ResourceID)> {
        Seq::new(self.tail as nat, |i: int| (self.entered@[i], self.queue@[i]->0))
    }

    closed spec fn ready(&self, tick: u32) -> bool {
        self.tail > 0 && tick >= self.tick + nibble(self.index, 0)
    }

    open spec fn exact_at(&self, tick: u32) -> bool {
        self.packets().len() == 0 || tick >= self.clock()
    }

    proof fn lemma_bounded(&self) {
    }

    proof fn lemma_ready(&self, tick: u32) {
        if self.tail > 0 {
            assert(self.queue@[0] is Some);
        }
    }

    fn duration(&self) -> (duration: u32) {
        self.capacity as u32
    }

    fn enqueue_unchecked(&mut self, tick: u32, resource: ResourceID)
        ensures
            final(self).clock() == if old(self).clock() > tick + 1 {
                old(self).clock()
            } else {
                (tick + 1) as nat
            },
    {
        let stamp = tick as u64 + 1;
        if stamp > self.tick {
            self.do_advance(stamp);
        }
        let arrival = tick as u64 + self.capacity as u64;
        let offset = if arrival > self.tick {
            arrival - self.tick
        } else {
            0
        };
        let ghost before = *self;
        self.index = set_nibble(self.index, self.tail, offset as u8);
        self.queue[self.tail as usize] = Some(resource);
        self.tail += 1;
        proof {
            self.entered@ = self.entered@.push(tick);
            assert forall|i: u64| i < self.tail implies {
                &&& (#[trigger] self.queue@[i as int]) is Some
                &&& self.tick + nibble(self.index, i) == if self.entered@[i as int] + self.capacity >= self.tick {
                    self.entered@[i as int] + self.capacity
                } else {
                    self.tick as int
                }
            } by {
                if i < before.tail {
                    assert(before.queue@[i as int] is Some);
                }
            }
            assert(self.packets() =~= old(self).packets().push((tick, resource)));
        }
    }

    fn consume_unchecked(&mut self)
        ensures
            final(self).clock() == old(self).clock(),
    {
        self.do_consume();
        self.tail -= 1;
        proof {
            self.entered@ = self.entered@.drop_first();
            assert forall|i: u64| i < self.tail implies {
                &&& (#[trigger] self.queue@[i as int]) is Some
                &&& self.tick + nibble(self.index, i) == if self.entered@[i as int] + self.capacity >= self.tick {
                    self.entered@[i as int] + self.capacity
                } else {
                    self.tick as int
                }
            } by {
                assert(old(self).queue@[(i + 1) as int] is Some);
                assert(nibble(self.index, i) == nibble(old(self).index, (i + 1) as u64));
            }
            assert(self.packets() =~= old(self).packets().drop_first());
        }
    }

    fn get_unchecked(&self) -> (resource: ResourceID) {
        assert(self.queue@[0] is Some);
        self.get(0).unwrap()
    }

    fn is_full(&self) -> (full: bool) {
        self.tail >= self.capacity
    }

    fn is_empty(&self) -> (empty: bool) {
        self.tail == 0
    }

    fn is_ready_to_consume(&self, tick_factory: u32) -> (ready: bool) {
        self.tail > 0 && tick_factory as u64 >= self.tick + get_nibble(self.index, 0) as u64
    }

    fn resolve(&self, factory_tick: u32) -> (slots: Vec<Option<ResourceID>>)
        ensures
            forall|slot: int|
                0 <= slot < slots@.len() ==> #[trigger] slots@[slot] == occupant(
                    self.remembered(),
                    self.length(),
                    factory_tick,
                    slot,
                    self.remembered().len(),
                ),
    {
        let capacity = self.capacity as usize;
        let mut result: Vec<Option<ResourceID>> = Vec::new();
        let mut made: usize = 0;
        while made < capacity
            invariant
                made <= capacity,
                result@.len() == made,
                forall|slot: int| 0 <= slot < made ==> #[trigger] result@[slot] is None,
            decreases capacity - made,
        {
            result.push(None);
            made += 1;
        }
        let mut i: u8 = 0;
        while i < self.tail
            invariant
                self.wf(),
                i <= self.tail,
                capacity == self.capacity,
                result@.len() == capacity,
                forall|slot: int|
                    0 <= slot < capacity ==> #[trigger] result@[slot] == occupant(
                        self.remembered(),
                        self.length(),
                        factory_tick,
                        slot,
                        i as nat,
                    ),
            decreases self.tail - i,
        {
            let leaves = self.tick + get_nibble(self.index, i) as u64;
            let left = if leaves > factory_tick as u64 {
                leaves - factory_tick as u64
            } else {
                0
            };
            let ahead = if left > capacity as u64 {
                capacity as u64 - 1
            } else if left > 0 {
                left - 1
            } else {
                0
            };
            let pos = if ahead > i as u64 {
                ahead as usize
            } else {
                i as usize
            };
            proof {
                assert(self.queue@[i as int] is Some);
                assert(pos == slot_from_output(self.remembered(), self.length(), factory_tick, i as int));
            }
            result.set(pos, self.get(i as usize));
            i += 1;
        }
        proof {
            if self.exact_at(factory_tick) {
                self.lemma_remembered();
                assert forall|slot: int| 0 <= slot < result@.len() implies #[trigger] result@[slot] == occupant(
                    self.packets(),
                    self.length(),
                    factory_tick,
                    slot,
                    self.packets().len(),
                ) by {
                    assert forall|i: int| 0 <= i < self.packets().len() implies #[trigger] drawn_alike(
                        self.remembered(),
                        self.packets(),
                        self.length(),
                        factory_tick,
                        i,
                    ) by {
                        assert(self.remembered()[i].1 == self.packets()[i].1);
                    }
                    lemma_occupant_agrees(
                        self.remembered(),
                        self.packets(),
                        self.length(),
                        factory_tick,
                        slot,
                        self.packets().len(),
                    );
                }
            }
        }
        result
    }
}

} // verus!
