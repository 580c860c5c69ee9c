//! Two simple machines for trying out a factory: a source that never runs
//! dry and a machine that passes on what it is given.

use vstd::prelude::*;
use crate::machine::ports::{Port, Ports as NumberedPorts};
use crate::resources::ports::{PortID, Ports, ResourceStore};
use crate::resources::resource::ResourceID;

verus! {

/// Whether a pass-through machine moves a unit: its port `A` holds
/// something, and its port `B` is empty or holds the same resource with room
/// for one more unit.
pub open spec fn passes(ports: Ports) -> bool {
    match ports.port(PortID::A)@ {
        Some((resource, _)) => match ports.port(PortID::B)@ {
            Some((resident, count)) => resident == resource && count != u16::MAX,
            None => true,
        },
        None => false,
    }
}

/// One step of a machine that passes units on from its port `A` to its port
/// `B`: one unit moves when `A` holds something that `B` can take, and
/// nothing changes otherwise. Ports `C` and `D` are left alone.
pub fn update_passthrough_machine(port: &mut Ports)
    ensures
        final(port).port(PortID::C) == old(port).port(PortID::C),
        final(port).port(PortID::D) == old(port).port(PortID::D),
        passes(*old(port)) ==> {
            let (resource, count_send) = old(port).port(PortID::A)@->0;
            &&& final(port).port(PortID::A)@ == ResourceStore::holding(resource, (count_send - 1) as u16)
            &&& final(port).port(PortID::B)@ == Some((resource, (old(port).port(PortID::B).units() + 1) as u16))
        },
        !passes(*old(port)) ==> *final(port) == *old(port),
{
    if let Some((resource, count_send)) = port.get(PortID::A).get() {
        let (resouce_recv, count_recv) = port.get(PortID::B).get_or(resource);
        if resouce_recv == resource && count_recv != u16::MAX {
            port.get_mut(PortID::A).set(resource, count_send - 1);
            port.get_mut(PortID::B).set(resource, count_recv + 1);
        }
    }
}

/// One step of a source that never runs dry: its port `B` offers one unit of
/// `resource`, and whatever arrived in its port `A` is thrown away. Ports
/// `C` and `D` are left alone.
pub fn update_unlimited_source(resource: ResourceID, port: &mut Ports)
    ensures
        final(port).port(PortID::A)@ is None,
        final(port).port(PortID::B)@ == Some((resource, 1u16)),
        final(port).port(PortID::C) == old(port).port(PortID::C),
        final(port).port(PortID::D) == old(port).port(PortID::D),
{
    port.get_mut(PortID::B).set(resource, 1);
    port.get_mut(PortID::A).clear();
}

/// Whether a pass-through machine with numbered ports moves a unit: it has
/// the ports numbered as `A` and `B`, the first holds something, and the
/// second is empty or holds the same resource, with room for one more unit.
pub open spec fn passes_numbered(ports: Seq<Port>) -> bool {
    &&& ports.len() >= 2
    &&& ports[0]@ matches Some((resource, _))
    &&& ResourceStore::compatible(ports[1]@, resource)
    &&& ports[1].room() > 0
}

/// One step of a machine with numbered, capacity-bounded ports that passes
/// units on from the port numbered as `A` to the port numbered as `B`: one
/// unit moves when the first holds something that the second can take, and
/// nothing changes otherwise. The other ports are left alone.
pub fn update_numbered_passthrough_machine(port: &mut NumberedPorts)
    ensures
        final(port)@.len() == old(port)@.len(),
        forall|other: int| 2 <= other < old(port)@.len() ==> final(port)@[other] == old(port)@[other],
        passes_numbered(old(port)@) ==> {
            let (resource, stored) = old(port)@[0]@->0;
            &&& final(port)@[0]@ == ResourceStore::holding(resource, (stored - 1) as u16)
            &&& final(port)@[0].limit() == old(port)@[0].limit()
            &&& final(port)@[1]@ == Some((resource, (old(port)@[1].units() + 1) as u16))
            &&& final(port)@[1].limit() == old(port)@[1].limit()
        },
        !passes_numbered(old(port)@) ==> final(port)@ == old(port)@,
{
    let offered = match port.get(PortID::A.key()) {
        Some(input) => input.resource(),
        None => None,
    };
    if let Some(resource) = offered {
        let takes = match port.get(PortID::B.key()) {
            Some(output) => output.remaining() > 0 && output.accepts(resource),
            None => false,
        };
        if takes {
            proof {
                port@[0].lemma_occupied();
            }
            if let Some(output) = port.get_mut(PortID::B.key()) {
                let sent = output.send(resource, 1);
                assert(sent == Ok::<u16, ResourceID>(1u16));
            }
            if let Some(input) = port.get_mut(PortID::A.key()) {
                input.pop(1);
            }
        }
    }
}

/// One step of a source with numbered, capacity-bounded ports that never
/// runs dry: the port numbered as `B`, if there is one, offers one unit of
/// `resource`, or none if it has no capacity at all, and whatever arrived in
/// the port numbered as `A` is thrown away. The other ports are left alone.
pub fn update_numbered_unlimited_source(resource: ResourceID, port: &mut NumberedPorts)
    ensures
        final(port)@.len() == old(port)@.len(),
        forall|other: int| 2 <= other < old(port)@.len() ==> final(port)@[other] == old(port)@[other],
        old(port)@.len() >= 1 ==> final(port)@[0]@ is None && final(port)@[0].limit() == old(port)@[0].limit(),
        old(port)@.len() >= 2 ==> {
            &&& final(port)@[1]@ == ResourceStore::holding(
                resource,
                if old(port)@[1].limit() >= 1 {
                    1u16
                } else {
                    0u16
                },
            )
            &&& final(port)@[1].limit() == old(port)@[1].limit()
        },
{
    if let Some(output) = port.get_mut(PortID::B.key()) {
        let stored = output.stored();
        output.pop(stored);
        let sent = output.send(resource, 1);
    }
    if let Some(input) = port.get_mut(PortID::A.key()) {
        let stored = input.stored();
        input.pop(stored);
    }
}

} // verus!
