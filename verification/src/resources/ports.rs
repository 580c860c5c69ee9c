//! Ports: the single-commodity buffers through which machines and pipes
//! exchange resource units.

use vstd::prelude::*;
use super::resource::ResourceID;

verus! {

/// One of the four port slots of a machine.
#[derive(Debug, Clone, Copy, PartialEq, Eq, Structural)]
pub enum PortID {
    A,
    B,
    C,
    D,
}

impl PortID {
    /// Position of the slot among the four, from 0 for `A` to 3 for `D`.
    pub open spec fn index(self) -> int {
        match self {
            PortID::A => 0,
            PortID::B => 1,
            PortID::C => 2,
            PortID::D => 3,
        }
    }

    /// Position of the slot among the four, from 0 for `A` to 3 for `D`.
    pub fn key(self) -> (key: u8)
        ensures
            key == self.index(),
    {
        match self {
            PortID::A => 0,
            PortID::B => 1,
            PortID::C => 2,
            PortID::D => 3,
        }
    }
}

/// Stable identity of the machine that owns a set of ports.
#[derive(Debug, Clone, Copy, PartialEq, Eq, Structural, Hash)]
pub struct EntityId(pub u64);

/// The port a pipe takes units from: owning machine and slot.
#[derive(Debug, Clone, Copy, PartialEq, Eq, Structural)]
pub struct PortRecv(pub EntityId, pub PortID);

/// The port a pipe delivers units to: owning machine and slot.
#[derive(Debug, Clone, Copy, PartialEq, Eq, Structural)]
pub struct PortSend(pub EntityId, pub PortID);

/// Number of units in a store that holds `held`.
pub open spec fn units(held: Option<(ResourceID, u16)>) -> nat {
    match held {
        Some((_, count)) => count as nat,
        None => 0,
    }
}

/// The resource of a store that holds `held`, if it holds any.
pub open spec fn resident(held: Option<(ResourceID, u16)>) -> Option<ResourceID> {
    match held {
        Some((resource, _)) => Some(resource),
        None => None,
    }
}

/// A buffer that holds units of at most one resource.
///
/// Its view is `None` while it holds nothing, else the resident resource and
/// how many units of it are stored.
#[derive(Debug, Clone, Copy)]
pub struct ResourceStore {
    resource: Option<ResourceID>,
    count: u16,
}

impl View for ResourceStore {
    type V = Option<(ResourceID, u16)>;

    closed spec fn view(&self) -> Option<(ResourceID, u16)> {
        match self.resource {
            Some(resource) if self.count != 0 => Some((resource, self.count)),
            _ => None,
        }
    }
}

impl Default for ResourceStore {
    /// The empty store.
    fn default() -> (store: Self)
        ensures
            store@ is None,
    {
        Self { resource: None, count: 0 }
    }
}

impl ResourceStore {
    #[verifier::type_invariant]
    spec fn occupied_has_resource(self) -> bool {
        self.count != 0 ==> self.resource is Some
    }

    /// A store that holds a resource holds at least one unit of it.
    pub proof fn lemma_occupied(self)
        ensures
            self@ matches Some((_, count)) ==> count > 0,
    {
    }

    /// Number of units stored, zero for an empty store.
    pub open spec fn units(self) -> nat {
        units(self@)
    }

    /// The store after `set(resource, count)`, whatever it held before.
    pub open spec fn holding(resource: ResourceID, count: u16) -> Option<(ResourceID, u16)> {
        if count == 0 {
            None
        } else {
            Some((resource, count))
        }
    }

    /// A store that holds `stored` units of `resource`; an empty one when
    /// `stored` is zero.
    pub fn new(resource: ResourceID, stored: u16) -> (store: Self)
        ensures
            store@ == Self::holding(resource, stored),
    {
        Self { resource: Some(resource), count: stored }
    }

    /// The resident resource, `None` exactly when the store holds no unit.
    pub fn resource(&self) -> (held: Option<ResourceID>)
        ensures
            held == resident(self@),
    {
        match self.get() {
            Some((resource, _)) => Some(resource),
            None => None,
        }
    }

    /// Number of units stored.
    pub fn stored(&self) -> (stored: u16)
        ensures
            stored == self.units(),
    {
        self.count()
    }

    /// Whether the store holds no unit.
    pub fn is_empty(&self) -> (empty: bool)
        ensures
            empty == (self@ is None),
    {
        self.get().is_none()
    }

    /// Whether units of `resource` could be added: the store is empty or
    /// already holds that resource.
    pub fn is_empty_or_has(&self, resource: ResourceID) -> (compatible: bool)
        ensures
            compatible == Self::compatible(self@, resource),
    {
        match self.resource() {
            Some(resident) => resident == resource,
            None => true,
        }
    }

    /// Whether a store that holds `held` is empty or holds `resource`.
    pub open spec fn compatible(held: Option<(ResourceID, u16)>, resource: ResourceID) -> bool {
        match held {
            Some((resident, _)) => resident == resource,
            None => true,
        }
    }

    /// How many of `count` offered units a store with `stored` units takes:
    /// all of them, or as many as fit below the limit of the counter.
    pub open spec fn accepted(stored: nat, count: u16) -> nat {
        if stored + count <= u16::MAX {
            count as nat
        } else {
            (u16::MAX - stored) as nat
        }
    }

    /// Takes `count` units away. The store must hold that many.
    pub fn pop(&mut self, count: u16)
        requires
            count <= old(self).units(),
        ensures
            final(self)@ == match old(self)@ {
                Some((resource, stored)) => Self::holding(resource, (stored - count) as u16),
                None => None,
            },
            final(self)@ is Some ==> resident(final(self)@) == resident(old(self)@),
    {
        proof {
            use_type_invariant(&*self);
        }
        self.count -= count;
    }

    /// Adds units of `resource`. A store that holds another resource refuses
    /// and names its resident; otherwise the store takes `count` units, or as
    /// many as fit, and says how many it took.
    pub fn try_send(&mut self, resource: ResourceID, count: u16) -> (outcome: Result<u16, ResourceID>)
        ensures
            match old(self)@ {
                Some((resident, _)) if resident != resource => {
                    &&& outcome == Err::<u16, ResourceID>(resident)
                    &&& *final(self) == *old(self)
                },
                _ => {
                    &&& outcome == Ok::<u16, ResourceID>(Self::accepted(old(self).units(), count) as u16)
                    &&& final(self)@ == Self::holding(
                        resource,
                        (old(self).units() + Self::accepted(old(self).units(), count)) as u16,
                    )
                },
            },
            old(self)@ is Some ==> resident(final(self)@) == resident(old(self)@),
    {
        match self.get() {
            Some((resident, stored)) => {
                if resident == resource {
                    let taken = if count <= u16::MAX - stored {
                        count
                    } else {
                        u16::MAX - stored
                    };
                    self.set(resource, stored + taken);
                    Ok(taken)
                } else {
                    Err(resident)
                }
            },
            None => {
                self.set(resource, count);
                Ok(count)
            },
        }
    }

    /// Offers up to `count` units for taking: `None` from an empty store,
    /// else the resident resource and how many of the `count` are there. The
    /// store stays as it is; the taker removes what it took with `pop`.
    pub fn try_recv(&mut self, count: u16) -> (offer: Option<(ResourceID, u16)>)
        ensures
            *final(self) == *old(self),
            offer == match old(self)@ {
                Some((resource, stored)) => Some((resource, if count <= stored { count } else { stored })),
                None => None,
            },
    {
        match self.get() {
            Some((resource, stored)) => Some((resource, if count <= stored { count } else { stored })),
            None => None,
        }
    }

    /// Adds `count` units of the resident resource and says `true`; an empty
    /// store has no resident, stays empty and says `false`. The sum must fit
    /// the counter.
    pub fn try_add(&mut self, count: u16) -> (added: bool)
        requires
            old(self).units() + count <= u16::MAX,
        ensures
            added == (old(self)@ is Some),
            final(self)@ == match old(self)@ {
                Some((resource, stored)) => Some((resource, (stored + count) as u16)),
                None => None,
            },
            resident(final(self)@) == resident(old(self)@),
    {
        match self.get() {
            Some((resource, stored)) => {
                self.set(resource, stored + count);
                true
            },
            None => false,
        }
    }

    /// Number of units stored.
    pub fn count(&self) -> (count: u16)
        ensures
            count == self.units(),
    {
        proof {
            use_type_invariant(self);
        }
        self.count
    }

    /// Overwrites the store with `count` units of `resource`. A count of zero
    /// leaves it empty.
    pub fn set(&mut self, resource: ResourceID, count: u16)
        ensures
            final(self)@ == Self::holding(resource, count),
    {
        self.resource = Some(resource);
        self.count = count;
    }

    /// What the store holds: `None` exactly when it holds no unit.
    pub fn get(&self) -> (held: Option<(ResourceID, u16)>)
        ensures
            held == self@,
            held matches Some((_, count)) ==> count > 0,
    {
        proof {
            use_type_invariant(self);
        }
        match self.resource {
            Some(resource) if self.count != 0 => Some((resource, self.count)),
            _ => None,
        }
    }

    /// What the store holds, or zero units of `resource` when it is empty.
    pub fn get_or(&self, resource: ResourceID) -> (held: (ResourceID, u16))
        ensures
            held == match self@ {
                Some(stored) => stored,
                None => (resource, 0u16),
            },
    {
        match self.get() {
            Some(stored) => stored,
            None => (resource, 0),
        }
    }

    /// Empties the store.
    pub fn clear(&mut self)
        ensures
            final(self)@ is None,
    {
        self.count = 0;
    }
}

/// The four ports of one machine.
#[derive(Debug, Clone, Copy)]
pub struct Ports([ResourceStore; 4]);

impl Default for Ports {
    /// Four empty ports.
    fn default() -> (ports: Self)
        ensures
            forall|id: PortID| (#[trigger] ports.port(id))@ is None,
    {
        Self([ResourceStore::default(), ResourceStore::default(), ResourceStore::default(), ResourceStore::default()])
    }
}

impl Ports {
    /// The store in slot `id`.
    pub closed spec fn port(self, id: PortID) -> ResourceStore {
        self.0[id.index()]
    }

    /// The store in slot `value`.
    pub fn get(&self, value: PortID) -> (store: &ResourceStore)
        ensures
            *store == self.port(value),
    {
        match value {
            PortID::A => &self.0[0],
            PortID::B => &self.0[1],
            PortID::C => &self.0[2],
            PortID::D => &self.0[3],
        }
    }

    /// The store in slot `value`, for writing. The other three slots stay as
    /// they are.
    pub fn get_mut(&mut self, value: PortID) -> (store: &mut ResourceStore)
        ensures
            *store == old(self).port(value),
            final(self).port(value) == *final(store),
            forall|other: PortID| other != value ==> final(self).port(other) == old(self).port(other),
    {
        match value {
            PortID::A => &mut self.0[0],
            PortID::B => &mut self.0[1],
            PortID::C => &mut self.0[2],
            PortID::D => &mut self.0[3],
        }
    }
}

} // verus!
