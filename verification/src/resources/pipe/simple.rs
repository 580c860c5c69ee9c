//! The general-purpose pipe: a ring buffer of packets, each stamped with the
//! tick at which it entered.

use vstd::prelude::*;
use crate::resources::pipe::{elapsed, occupant, slot_from_output, travelled, Pipe};
use crate::resources::resource::ResourceID;

verus! {

/// A pipe that keeps its items in a [`PacketBuffer`], each with the tick at
/// which it entered.
pub struct PipeSimple(PacketBuffer);

impl PipeSimple {
    /// An empty pipe of `length` slots.
    pub fn new(length: u32) -> (pipe: Self)
        ensures
            pipe.wf(),
            pipe.length() == length,
            pipe.packets() == Seq::<(u32, ResourceID)>::empty(),
    {
        Self(PacketBuffer::new(length))
    }

    /// Number of slots, which is also the transit time in ticks.
    pub fn capacity(&self) -> (capacity: u32)
        requires
            self.wf(),
        ensures
            capacity == self.length(),
    {
        self.0.capacity()
    }

    /// How many slots the `i`-th oldest item has moved away from the input
    /// end at `factory_tick`.
    pub fn get_packet_position(&self, factory_tick: u32, i: u32) -> (position: usize)
        requires
            self.wf(),
            i < self.packets().len(),
        ensures
            position == travelled(self.length(), i as nat, elapsed(self.packets()[i as int].0, factory_tick)),
            position < self.length(),
    {
        proof {
            self.0.lemma_bounded();
        }
        let capacity = self.0.capacity();
        let entered = match self.0.get(i) {
            Some(packet) => packet.0,
            None => factory_tick,
        };
        let distance_from_start = if factory_tick >= entered {
            factory_tick - entered
        } else {
            0
        };
        let free = capacity - i - 1;
        (if distance_from_start < free {
            distance_from_start
        } else {
            free
        }) as usize
    }
}

impl Pipe for PipeSimple {
    closed spec fn wf(&self) -> bool {
        self.0.wf()
    }

    closed spec fn length(&self) -> nat {
        self.0.spec_capacity()
    }

    closed spec fn packets(&self) -> Seq<(u32, ResourceID)> {
        self.0@
    }

    proof fn lemma_bounded(&self) {
        self.0.lemma_bounded();
    }

    fn enqueue_unchecked(&mut self, tick: u32, resource: ResourceID) {
        self.0.push(tick, resource);
    }

    fn consume_unchecked(&mut self) {
        self.0.pop();
    }

    fn get_unchecked(&self) -> (resource: ResourceID) {
        self.0.peek_front().unwrap().1
    }

    fn is_full(&self) -> (full: bool) {
        self.0.is_full()
    }

    fn is_empty(&self) -> (empty: bool) {
        self.0.is_empty()
    }

    fn is_ready_to_consume(&self, tick: u32) -> (ready: bool) {
        match self.0.peek_front() {
            Some(packet) => tick >= packet.0 && tick - packet.0 >= self.0.capacity(),
            None => false,
        }
    }

    fn resolve(&self, factory_tick: u32) -> (slots: Vec<Option<ResourceID>>) {
        proof {
            self.0.lemma_bounded();
        }
        let capacity = self.0.capacity();
        let mut result: Vec<Option<ResourceID>> = Vec::new();
        let mut made: u32 = 0;
        while made < capacity
            invariant
                made <= capacity,
                result@.len() == made,
                forall|slot: int| 0 <= slot < made ==> #[trigger] result@[slot] is None,
            decreases capacity - made,
        {
            result.push(None);
            made += 1;
        }
        let len = self.0.len();
        let mut i: u32 = 0;
        while i < len
            invariant
                self.wf(),
                i <= len,
                len == self.packets().len(),
                capacity == self.length(),
                len <= capacity,
                result@.len() == capacity,
                forall|slot: int|
                    0 <= slot < capacity ==> #[trigger] result@[slot] == occupant(
                        self.packets(),
                        self.length(),
                        factory_tick,
                        slot,
                        i as nat,
                    ),
            decreases len - i,
        {
            let idx = capacity as usize - 1 - self.get_packet_position(factory_tick, i);
            assert(idx == slot_from_output(self.packets(), self.length(), factory_tick, i as int));
            let resource = match self.0.get(i) {
                Some(packet) => Some(packet.1),
                None => None,
            };
            result.set(idx, resource);
            i += 1;
        }
        result
    }
}

/// The index after `value` in a ring of `max` slots.
fn wrap_inc(value: u32, max: u32) -> (next: u32)
    requires
        max > 0,
        value < max,
    ensures
        next == if value + 1 == max { 0 } else { value + 1 },
{
    if value >= max - 1 {
        0
    } else {
        value + 1
    }
}

/// The index before `value` in a ring of `max` slots.
fn wrap_dec(value: u32, max: u32) -> (prev: u32)
    requires
        max > 0,
        value < max,
    ensures
        prev == if value == 0 { max - 1 } else { value - 1 },
{
    if value == 0 {
        max - 1
    } else {
        value - 1
    }
}

/// A ring buffer of `(tick, resource)` packets with a capacity fixed at
/// construction.
///
/// Its view is the sequence of packets it holds, oldest first.
pub struct PacketBuffer {
    data: Vec<(u32, Option<ResourceID>)>,
    head: u32,
    /// One past the newest packet, or the capacity when the buffer is full.
    tail: u32,
}

impl View for PacketBuffer {
    type V = Seq<(u32, ResourceID)>;

    closed spec fn view(&self) -> Seq<(u32, ResourceID)> {
        Seq::new(self.count(), |k: int| (self.data@[self.slot(k)].0, self.data@[self.slot(k)].1->0))
    }
}

impl PacketBuffer {
    /// Number of packets held, read off `head` and `tail`.
    closed spec fn count(&self) -> nat {
        let capacity = self.data@.len();
        if self.tail == capacity {
            capacity
        } else if self.tail < self.head {
            ((capacity + self.tail) - self.head) as nat
        } else {
            (self.tail - self.head) as nat
        }
    }

    /// Where the `k`-th oldest packet lies in `data`.
    closed spec fn slot(&self, k: int) -> int {
        if self.head + k < self.data@.len() {
            self.head + k
        } else {
            self.head + k - self.data@.len()
        }
    }

    /// Whether position `i` of `data` lies between `head` and `tail`.
    closed spec fn live(&self, i: int) -> bool {
        if self.tail == self.data@.len() {
            true
        } else if self.head <= self.tail {
            self.head <= i < self.tail
        } else {
            self.head <= i || i < self.tail
        }
    }

    /// The representation invariant: indices stay inside the ring and every
    /// live slot holds a packet.
    pub closed spec fn wf(&self) -> bool {
        &&& self.data@.len() <= u32::MAX
        &&& self.tail <= self.data@.len()
        &&& if self.data@.len() == 0 {
            self.head == 0
        } else {
            self.head < self.data@.len()
        }
        &&& forall|i: int|
            0 <= i < self.data@.len() && self.live(i) ==> (#[trigger] self.data@[i]).1 is Some
    }

    /// The capacity the buffer was made with.
    pub closed spec fn spec_capacity(&self) -> nat {
        self.data@.len()
    }

    /// A well-formed buffer never holds more packets than its capacity.
    pub proof fn lemma_bounded(&self)
        requires
            self.wf(),
        ensures
            self@.len() <= self.spec_capacity(),
            self.spec_capacity() <= u32::MAX,
    {
    }

    /// An empty buffer with room for `capacity` packets.
    pub fn new(capacity: u32) -> (buffer: Self)
        ensures
            buffer.wf(),
            buffer.spec_capacity() == capacity,
            buffer@ == Seq::<(u32, ResourceID)>::empty(),
    {
        let mut data: Vec<(u32, Option<ResourceID>)> = Vec::new();
        let mut filled: u32 = 0;
        while filled < capacity
            invariant
                filled <= capacity,
                data@.len() == filled,
            decreases capacity - filled,
        {
            data.push((0, None));
            filled += 1;
        }
        Self { data, head: 0, tail: 0 }
    }

    /// The capacity the buffer was made with.
    pub fn capacity(&self) -> (capacity: u32)
        requires
            self.wf(),
        ensures
            capacity == self.spec_capacity(),
    {
        self.data.len() as u32
    }

    /// Number of packets held.
    pub fn len(&self) -> (len: u32)
        requires
            self.wf(),
        ensures
            len == self@.len(),
    {
        let capacity = self.data.len();
        let head = self.head as usize;
        let tail = self.tail as usize;
        (if tail == capacity {
            capacity
        } else if tail < head {
            (capacity - head) + tail
        } else {
            tail - head
        }) as u32
    }

    /// Whether the buffer holds no packet.
    pub fn is_empty(&self) -> (empty: bool)
        requires
            self.wf(),
        ensures
            empty == (self@.len() == 0),
    {
        self.tail == self.head
    }

    /// Whether the buffer holds as many packets as its capacity.
    pub fn is_full(&self) -> (full: bool)
        requires
            self.wf(),
        ensures
            full == (self@.len() == self.spec_capacity()),
    {
        self.tail as usize == self.data.len()
    }

    /// Appends a packet behind the newest one.
    pub fn push(&mut self, tick: u32, value: ResourceID)
        requires
            old(self).wf(),
            old(self)@.len() < old(self).spec_capacity(),
        ensures
            final(self).wf(),
            final(self).spec_capacity() == old(self).spec_capacity(),
            final(self)@ == old(self)@.push((tick, value)),
    {
        let at = self.tail as usize;
        self.data.set(at, (tick, Some(value)));
        self.inc_tail();
        assert(self@ =~= old(self)@.push((tick, value)));
    }

    /// The oldest packet, if there is one.
    pub fn peek_front(&self) -> (packet: Option<(u32, ResourceID)>)
        requires
            self.wf(),
        ensures
            packet == if self@.len() == 0 { None } else { Some(self@[0]) },
    {
        if self.is_empty() {
            return None;
        }
        let result = self.data[self.head as usize];
        assert(self.live(self.head as int));
        match result.1 {
            Some(resource) => Some((result.0, resource)),
            None => None,
        }
    }

    /// The newest packet, if there is one.
    pub fn peek_back(&self) -> (packet: Option<(u32, ResourceID)>)
        requires
            self.wf(),
        ensures
            packet == if self@.len() == 0 { None } else { Some(self@.last()) },
    {
        if self.is_empty() {
            return None;
        }
        let at = self.get_last_idx();
        let result = self.data[at];
        assert(self.live(at as int));
        match result.1 {
            Some(resource) => Some((result.0, resource)),
            None => None,
        }
    }

    /// Removes the oldest packet.
    pub fn pop(&mut self)
        requires
            old(self).wf(),
            old(self)@.len() > 0,
        ensures
            final(self).wf(),
            final(self).spec_capacity() == old(self).spec_capacity(),
            final(self)@ == old(self)@.drop_first(),
    {
        let at = self.head as usize;
        let tick = self.data[at].0;
        self.data.set(at, (tick, None));
        self.inc_head();
        assert(self@ =~= old(self)@.drop_first());
    }

    /// The `idx`-th oldest packet, or `None` when fewer are held.
    pub fn get(&self, idx: u32) -> (packet: Option<(u32, ResourceID)>)
        requires
            self.wf(),
        ensures
            packet == if idx < self@.len() { Some(self@[idx as int]) } else { None },
    {
        if idx >= self.len() {
            return None;
        }
        let capacity = self.data.len();
        let head = self.head as usize;
        let at = if idx as usize >= capacity - head {
            idx as usize - (capacity - head)
        } else {
            head + idx as usize
        };
        assert(at == self.slot(idx as int));
        assert(self.live(at as int));
        let (tick, resource) = self.data[at];
        match resource {
            Some(resource) => Some((tick, resource)),
            None => None,
        }
    }

    /// Moves `head` past the oldest packet, whose slot was just vacated.
    fn inc_head(&mut self)
        requires
            old(self).data@.len() <= u32::MAX,
            old(self).head < old(self).data@.len(),
            old(self).tail <= old(self).data@.len(),
        ensures
            final(self).data == old(self).data,
            final(self).head == if old(self).head + 1 == old(self).data@.len() { 0 } else { old(self).head + 1 },
            final(self).tail == if old(self).tail == old(self).data@.len() { old(self).head } else { old(self).tail },
    {
        let head_old = self.head;
        let capacity = self.data.len() as u32;
        self.head = wrap_inc(self.head, capacity);
        if self.tail == capacity {
            self.tail = head_old;
        }
    }

    /// Moves `tail` past the slot that was just filled.
    fn inc_tail(&mut self)
        requires
            old(self).data@.len() <= u32::MAX,
            old(self).tail < old(self).data@.len(),
        ensures
            final(self).data == old(self).data,
            final(self).head == old(self).head,
            final(self).tail == {
                let next = if old(self).tail + 1 == old(self).data@.len() { 0 } else { old(self).tail + 1 };
                if next == old(self).head { old(self).data@.len() as int } else { next }
            },
    {
        let capacity = self.data.len() as u32;
        self.tail = wrap_inc(self.tail, capacity);
        if self.tail == self.head {
            self.tail = capacity;
        }
    }

    /// Where the newest packet lies in `data`.
    fn get_last_idx(&self) -> (at: usize)
        requires
            self.wf(),
            self@.len() > 0,
        ensures
            at == self.slot(self@.len() - 1),
            at < self.data@.len(),
    {
        let capacity = self.data.len() as u32;
        if self.tail == capacity {
            wrap_dec(self.head, capacity) as usize
        } else {
            wrap_dec(self.tail, capacity) as usize
        }
    }
}

} // verus!
