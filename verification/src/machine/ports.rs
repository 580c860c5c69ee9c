//! Ports with a configurable capacity, and the set of ports of a machine.

use vstd::prelude::*;
use crate::resources::ports::{resident, units, ResourceStore};
use crate::resources::resource::ResourceID;

verus! {

/// Position of a port among the ports of its machine.
pub type PortKey = u8;

/// Number of units in a port.
pub type PortCapacity = u16;

/// A single-commodity buffer that takes units up to its capacity.
#[derive(Clone, Copy, Debug)]
pub struct Port {
    store: ResourceStore,
    /// The most units the port takes; the largest number there is unless
    /// set otherwise.
    pub capacity: PortCapacity,
}

impl View for Port {
    type V = Option<(ResourceID, u16)>;

    /// What the port holds: `None` while it holds nothing, else the resident
    /// resource and the number of units.
    closed spec fn view(&self) -> Option<(ResourceID, u16)> {
        self.store@
    }
}

impl Default for Port {
    /// An empty port of the largest capacity.
    fn default() -> (port: Self)
        ensures
            port@ is None,
            port.limit() == PortCapacity::MAX,
    {
        Self { store: ResourceStore::default(), capacity: PortCapacity::MAX }
    }
}

impl Port {
    /// Number of units in the port.
    pub open spec fn units(self) -> nat {
        units(self@)
    }

    /// Number of units the port still has room for.
    pub open spec fn room(self) -> nat {
        if self.units() <= self.limit() {
            (self.limit() - self.units()) as nat
        } else {
            0
        }
    }

    /// The capacity of the port.
    pub closed spec fn limit(self) -> PortCapacity {
        self.capacity
    }

    /// An empty port that takes up to `capacity` units.
    pub fn with_capacity(capacity: PortCapacity) -> (port: Self)
        ensures
            port@ is None,
            port.limit() == capacity,
    {
        Self { store: ResourceStore::default(), capacity }
    }

    /// A port that holds a resource holds at least one unit of it.
    pub proof fn lemma_occupied(self)
        ensures
            self@ matches Some((_, count)) ==> count > 0,
    {
        self.store.lemma_occupied();
    }

    /// Offers up to `count` units for taking: `None` from an empty port, else
    /// the resident resource and how many of the `count` are there. The port
    /// stays as it is; the taker removes what it took with `pop`.
    pub fn recv(&mut self, count: PortCapacity) -> (offer: Option<(ResourceID, PortCapacity)>)
        ensures
            *final(self) == *old(self),
            offer == match old(self)@ {
                Some((resource, stored)) => Some((resource, if count <= stored { count } else { stored })),
                None => None,
            },
    {
        self.store.try_recv(count)
    }

    /// Takes `count` units away. The port must hold that many.
    pub fn pop(&mut self, count: PortCapacity)
        requires
            count <= old(self).units(),
        ensures
            final(self).limit() == old(self).limit(),
            final(self)@ == match old(self)@ {
                Some((resource, stored)) => ResourceStore::holding(resource, (stored - count) as u16),
                None => None,
            },
            final(self)@ is Some ==> resident(final(self)@) == resident(old(self)@),
    {
        self.store.pop(count);
    }

    /// Adds units of `resource`. A port that holds another resource refuses
    /// and names its resident; otherwise the port takes `count` units, or as
    /// many as it has room for, and says how many it took.
    pub fn send(&mut self, resource: ResourceID, count: PortCapacity) -> (outcome: Result<PortCapacity, ResourceID>)
        ensures
            final(self).limit() == old(self).limit(),
            match old(self)@ {
                Some((resident, _)) if resident != resource => {
                    &&& outcome == Err::<PortCapacity, ResourceID>(resident)
                    &&& *final(self) == *old(self)
                },
                _ => {
                    let taken = if count <= old(self).room() { count as nat } else { old(self).room() };
                    &&& outcome == Ok::<PortCapacity, ResourceID>(taken as u16)
                    &&& final(self)@ == ResourceStore::holding(resource, (old(self).units() + taken) as u16)
                },
            },
            old(self)@ is Some ==> resident(final(self)@) == resident(old(self)@),
            old(self).units() <= old(self).limit() ==> final(self).units() <= final(self).limit(),
    {
        let room = self.remaining();
        self.store.try_send(resource, if count <= room { count } else { room })
    }

    /// Number of units the port still has room for: none when it already
    /// holds its capacity or more.
    pub fn remaining(&self) -> (room: PortCapacity)
        ensures
            room == self.room(),
    {
        let stored = self.store.stored();
        if stored <= self.capacity {
            self.capacity - stored
        } else {
            0
        }
    }

    /// Whether units of `resource` could be added if there is room: the port
    /// is empty or already holds that resource.
    pub fn accepts(&self, resource: ResourceID) -> (compatible: bool)
        ensures
            compatible == ResourceStore::compatible(self@, resource),
    {
        self.store.is_empty_or_has(resource)
    }

    /// The resident resource, `None` exactly when the port holds no unit.
    pub fn resource(&self) -> (held: Option<ResourceID>)
        ensures
            held == resident(self@),
    {
        self.store.resource()
    }

    /// Number of units in the port.
    pub fn stored(&self) -> (stored: PortCapacity)
        ensures
            stored == self.units(),
    {
        self.store.stored()
    }
}

/// The ports of one machine, numbered from zero.
pub struct Ports {
    ports: Vec<Port>,
}

impl View for Ports {
    type V = Seq<Port>;

    closed spec fn view(&self) -> Seq<Port> {
        self.ports@
    }
}

impl Default for Ports {
    /// A machine without ports.
    fn default() -> (ports: Self)
        ensures
            ports@.len() == 0,
    {
        Self { ports: Vec::new() }
    }
}

impl Ports {
    #[verifier::type_invariant]
    spec fn countable(self) -> bool {
        self.ports@.len() <= PortKey::MAX
    }

    /// `count` empty ports of the largest capacity.
    pub fn new(count: PortKey) -> (ports: Self)
        ensures
            ports@.len() == count,
            forall|i: int| 0 <= i < count ==> (#[trigger] ports@[i])@ is None && ports@[i].limit() == PortCapacity::MAX,
    {
        let mut ports: Vec<Port> = Vec::new();
        let mut made: PortKey = 0;
        while made < count
            invariant
                made <= count,
                ports@.len() == made,
                forall|i: int| 0 <= i < made ==> (#[trigger] ports@[i])@ is None && ports@[i].limit() == PortCapacity::MAX,
            decreases count - made,
        {
            ports.push(Port::default());
            made += 1;
        }
        Self { ports }
    }

    /// Number of ports.
    pub fn count(&self) -> (count: PortKey)
        ensures
            count == self@.len(),
    {
        proof {
            use_type_invariant(self);
        }
        self.ports.len() as PortKey
    }

    /// The port numbered `idx`, if the machine has that many.
    pub fn get(&self, idx: PortKey) -> (port: Option<&Port>)
        ensures
            port == if idx < self@.len() { Some(&self@[idx as int]) } else { None },
    {
        if (idx as usize) < self.ports.len() {
            Some(&self.ports[idx as usize])
        } else {
            None
        }
    }

    /// The port numbered `idx`, for writing, if the machine has that many.
    /// The other ports stay as they are.
    pub fn get_mut(&mut self, idx: PortKey) -> (port: Option<&mut Port>)
        ensures
            port is Some <==> idx < old(self)@.len(),
            port is None ==> final(self)@ == old(self)@,
            port matches Some(port) ==> *port == old(self)@[idx as int] && final(self)@ == old(self)@.update(
                idx as int,
                *final(port),
            ),
    {
        proof {
            use_type_invariant(&*self);
        }
        if (idx as usize) < self.ports.len() {
            Some(&mut self.ports[idx as usize])
        } else {
            None
        }
    }
}

} // verus!
