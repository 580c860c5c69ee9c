//! A fixed-capacity ring buffer.

use vstd::prelude::*;

verus! {

/// The index `distance` places after `value` in a ring of `max` slots.
fn wrap_fast(value: u16, distance: u16, max: u16) -> (index: usize)
    requires
        value < max,
        distance < max,
    ensures
        index == if value + distance < max { value + distance } else { value + distance - max },
{
    let max_dist = max - value;
    (if max_dist <= distance {
        distance - max_dist
    } else {
        value + distance
    }) as usize
}

/// The index after `value` in a ring of `max` slots.
fn wrap_inc(value: u16, max: u16) -> (next: u16)
    requires
        value < max,
    ensures
        next == if value + 1 == max { 0 } else { value + 1 },
{
    if value + 1 >= max {
        0
    } else {
        value + 1
    }
}

/// The index before `value` in a ring of `max` slots.
fn wrap_dec(value: u16, max: u16) -> (prev: u16)
    requires
        value < max,
    ensures
        prev == if value == 0 { max - 1 } else { value - 1 },
{
    if value == 0 {
        max - 1
    } else {
        value - 1
    }
}

/// A double-ended queue of at most `capacity` values, kept in a ring.
///
/// Its view is the sequence of values it holds, front first.
pub struct RingBuffer<T> {
    data: Vec<T>,
    head: u16,
    tail: u16,
    length: u16,
    capacity: u16,
}

impl<T> View for RingBuffer<T> {
    type V = Seq<T>;

    closed spec fn view(&self) -> Seq<T> {
        Seq::new(self.length as nat, |k: int| self.data@[self.slot(k)])
    }
}

impl<T> RingBuffer<T> {
    /// Where the `k`-th value from the front lies in `data`.
    closed spec fn slot(&self, k: int) -> int {
        if self.head + k < self.capacity {
            self.head + k
        } else {
            self.head + k - self.capacity
        }
    }

    /// The representation invariant: the indices stay inside the ring and
    /// `tail` lies `length` places after `head`.
    pub closed spec fn wf(&self) -> bool {
        &&& self.data@.len() == self.capacity
        &&& self.length <= self.capacity
        &&& if self.capacity == 0 {
            self.head == 0 && self.tail == 0
        } else {
            &&& self.head < self.capacity
            &&& self.tail < self.capacity
            &&& self.tail == if self.head + self.length < self.capacity {
                self.head + self.length
            } else {
                self.head + self.length - self.capacity
            }
        }
    }

    /// The capacity the buffer was made with.
    pub closed spec fn spec_capacity(&self) -> nat {
        self.capacity as nat
    }

    /// A well-formed buffer never holds more values than its capacity.
    pub proof fn lemma_bounded(&self)
        requires
            self.wf(),
        ensures
            self@.len() <= self.spec_capacity(),
            self.spec_capacity() <= u16::MAX,
    {
    }
}

impl<T: Default + Copy> RingBuffer<T> {
    /// An empty buffer with room for `capacity` values.
    pub fn new(capacity: u16) -> (buffer: Self)
        ensures
            buffer.wf(),
            buffer.spec_capacity() == capacity,
            buffer@ == Seq::<T>::empty(),
    {
        let mut data: Vec<T> = Vec::new();
        let mut filled: u16 = 0;
        while filled < capacity
            invariant
                filled <= capacity,
                data@.len() == filled,
            decreases capacity - filled,
        {
            data.push(T::default());
            filled += 1;
        }
        Self { data, head: 0, tail: 0, length: 0, capacity }
    }
}

impl<T: Copy> RingBuffer<T> {
    /// Puts `value` in front of the others. The buffer must not be full.
    pub fn push_front(&mut self, value: T)
        requires
            old(self).wf(),
            old(self)@.len() < old(self).spec_capacity(),
        ensures
            final(self).wf(),
            final(self).spec_capacity() == old(self).spec_capacity(),
            final(self)@ == seq![value] + old(self)@,
    {
        self.head = wrap_dec(self.head, self.capacity);
        self.data.set(self.head as usize, value);
        self.length += 1;
        assert(self@ =~= seq![value] + old(self)@);
    }

    /// Puts `value` behind the others. The buffer must not be full.
    pub fn push_back(&mut self, value: T)
        requires
            old(self).wf(),
            old(self)@.len() < old(self).spec_capacity(),
        ensures
            final(self).wf(),
            final(self).spec_capacity() == old(self).spec_capacity(),
            final(self)@ == old(self)@.push(value),
    {
        self.data.set(self.tail as usize, value);
        self.tail = wrap_inc(self.tail, self.capacity);
        self.length += 1;
        assert(self@ =~= old(self)@.push(value));
    }

    /// Takes the front value out. The buffer must not be empty.
    pub fn pop_front(&mut self) -> (value: T)
        requires
            old(self).wf(),
            old(self)@.len() > 0,
        ensures
            final(self).wf(),
            final(self).spec_capacity() == old(self).spec_capacity(),
            value == old(self)@[0],
            final(self)@ == old(self)@.drop_first(),
    {
        let old_head = self.head as usize;
        self.head = wrap_inc(self.head, self.capacity);
        self.length -= 1;
        assert(self@ =~= old(self)@.drop_first());
        self.data[old_head]
    }

    /// Takes the back value out. The buffer must not be empty.
    pub fn pop_back(&mut self) -> (value: T)
        requires
            old(self).wf(),
            old(self)@.len() > 0,
        ensures
            final(self).wf(),
            final(self).spec_capacity() == old(self).spec_capacity(),
            value == old(self)@.last(),
            final(self)@ == old(self)@.drop_last(),
    {
        self.tail = wrap_dec(self.tail, self.capacity);
        self.length -= 1;
        assert(self@ =~= old(self)@.drop_last());
        self.data[self.tail as usize]
    }

    /// The front value. The buffer must not be empty.
    pub fn front(&self) -> (value: &T)
        requires
            self.wf(),
            self@.len() > 0,
        ensures
            *value == self@[0],
    {
        &self.data[self.head as usize]
    }

    /// The front value, for writing. The buffer must not be empty.
    pub fn front_mut(&mut self) -> (value: &mut T)
        requires
            old(self).wf(),
            old(self)@.len() > 0,
        ensures
            *value == old(self)@[0],
            final(self).wf(),
            final(self).spec_capacity() == old(self).spec_capacity(),
            final(self)@ == old(self)@.update(0, *final(value)),
    {
        let at = self.head as usize;
        &mut self.data[at]
    }

    /// The back value. The buffer must not be empty.
    pub fn back(&self) -> (value: &T)
        requires
            self.wf(),
            self@.len() > 0,
        ensures
            *value == self@.last(),
    {
        &self.data[wrap_dec(self.tail, self.capacity) as usize]
    }

    /// The back value, for writing. The buffer must not be empty.
    pub fn back_mut(&mut self) -> (value: &mut T)
        requires
            old(self).wf(),
            old(self)@.len() > 0,
        ensures
            *value == old(self)@.last(),
            final(self).wf(),
            final(self).spec_capacity() == old(self).spec_capacity(),
            final(self)@ == old(self)@.update(old(self)@.len() - 1, *final(value)),
    {
        let at = wrap_dec(self.tail, self.capacity) as usize;
        &mut self.data[at]
    }

    /// Number of values held.
    pub fn len(&self) -> (len: u16)
        requires
            self.wf(),
        ensures
            len == self@.len(),
    {
        self.length
    }

    /// Whether the buffer holds no value.
    pub fn is_empty(&self) -> (empty: bool)
        requires
            self.wf(),
        ensures
            empty == (self@.len() == 0),
    {
        self.length == 0
    }

    /// Whether the buffer holds as many values as its capacity.
    pub fn is_full(&self) -> (full: bool)
        requires
            self.wf(),
        ensures
            full == (self@.len() == self.spec_capacity()),
    {
        self.length >= self.capacity
    }

    /// The capacity the buffer was made with.
    pub fn capacity(&self) -> (capacity: u16)
        requires
            self.wf(),
        ensures
            capacity == self.spec_capacity(),
    {
        self.capacity
    }

    /// The `index`-th value from the front, which must be there.
    pub fn get(&self, index: u16) -> (value: &T)
        requires
            self.wf(),
            index < self@.len(),
        ensures
            *value == self@[index as int],
    {
        let at = wrap_fast(self.head, index, self.capacity);
        &self.data[at]
    }

    /// The `index`-th value from the front, which must be there, for writing.
    pub fn get_mut(&mut self, index: u16) -> (value: &mut T)
        requires
            old(self).wf(),
            index < old(self)@.len(),
        ensures
            *value == old(self)@[index as int],
            final(self).wf(),
            final(self).spec_capacity() == old(self).spec_capacity(),
            final(self)@ == old(self)@.update(index as int, *final(value)),
    {
        let at = wrap_fast(self.head, index, self.capacity);
        &mut self.data[at]
    }
}

} // verus!
