//! A connection with paired "can I?" and "do it" operations.

use vstd::prelude::*;
use crate::machine::connection::{ConnectionPortRecv, ConnectionPortSend};
use crate::machine::packet::PacketRing;
use crate::resources::pipe::{delivers, receives, transit_complete, Line};
use crate::resources::ports::{PortID, Ports};
use crate::resources::resource::ResourceID;

verus! {

/// A connection of `length` slots in which every item spends `length` ticks.
/// `insert` follows a `can_insert` that said yes, and `consume` and `peek`
/// follow a `can_consume` that said yes.
pub struct Connection(PacketRing);

impl Connection {
    /// The representation invariant of the connection.
    pub closed spec fn wf(&self) -> bool {
        self.0.wf()
    }

    /// Number of slots, which is also the transit time in ticks.
    pub closed spec fn length(&self) -> nat {
        self.0.length()
    }

    /// The items in flight, oldest first, each with the tick at which it
    /// entered.
    pub closed spec fn packets(&self) -> Seq<(u32, ResourceID)> {
        self.0.packets()
    }

    /// A well-formed connection never holds more items than it has slots.
    pub proof fn lemma_bounded(&self)
        requires
            self.wf(),
        ensures
            self.packets().len() <= self.length(),
            self.length() <= u16::MAX,
    {
        self.0.lemma_bounded();
    }

    /// An empty connection of `length` slots.
    pub fn new(length: u16) -> (connection: Self)
        ensures
            connection.wf(),
            connection.length() == length,
            connection.packets() == Seq::<(u32, ResourceID)>::empty(),
    {
        Self(PacketRing::new(length))
    }

    /// Number of slots, which is also the transit time in ticks.
    pub fn duration(&self) -> (duration: u32)
        requires
            self.wf(),
        ensures
            duration == self.length(),
    {
        self.0.duration()
    }

    /// Whether the oldest item has completed its transit at `tick`.
    pub fn can_consume(&self, tick: u32) -> (ready: bool)
        requires
            self.wf(),
        ensures
            ready == transit_complete(self.packets(), self.length(), tick),
    {
        self.0.is_ready(tick)
    }

    /// Whether a slot is free.
    pub fn can_insert(&self) -> (free: bool)
        requires
            self.wf(),
        ensures
            free == (self.packets().len() < self.length()),
    {
        proof {
            self.0.lemma_bounded();
        }
        !self.0.is_full()
    }

    /// Enqueues `resource`, stamped with `tick`. A slot must be free, and the
    /// tick at which the item completes its transit must lie in the range of
    /// the clock.
    pub fn insert(&mut self, tick: u32, resource: ResourceID)
        requires
            old(self).wf(),
            old(self).packets().len() < old(self).length(),
            tick + old(self).length() <= u32::MAX,
        ensures
            final(self).wf(),
            final(self).length() == old(self).length(),
            final(self).packets() == old(self).packets().push((tick, resource)),
    {
        self.0.enqueue(tick, resource);
    }

    /// Removes the oldest item. The connection must not be empty.
    pub fn consume(&mut self)
        requires
            old(self).wf(),
            old(self).packets().len() > 0,
        ensures
            final(self).wf(),
            final(self).length() == old(self).length(),
            final(self).packets() == old(self).packets().drop_first(),
    {
        self.0.consume();
    }

    /// The oldest item: the tick from which it may leave, and its resource.
    /// The connection must not be empty.
    pub fn peek(&self) -> (head: (u32, ResourceID))
        requires
            self.wf(),
            self.packets().len() > 0,
        ensures
            head.0 == self.packets()[0].0 + self.length(),
            head.1 == self.packets()[0].1,
    {
        self.0.peek()
    }
}

/// Whether the receive phase of `connection` would move a unit out of the
/// port that `ports_recv` names.
pub fn can_receive(connection: &Connection, ports_recv: &ConnectionPortRecv, ports: &Ports) -> (moves: bool)
    requires
        connection.wf(),
    ensures
        moves == receives(connection.packets(), connection.length(), ports.port(ports_recv.1)@),
{
    connection.can_insert() && ports.get(ports_recv.1).get().is_some()
}

/// Receive phase of one connection: when a slot is free and the source port
/// holds something, one unit leaves the port and enters the connection
/// stamped with `tick`. Otherwise nothing changes. `ports` are the ports of
/// the machine that `ports_recv` names. Where a unit enters, the tick at which
/// it completes its transit must lie in the range of the clock.
pub fn connection_recv(tick: u32, connection: &mut Connection, ports_recv: &ConnectionPortRecv, ports: &mut Ports)
    requires
        old(connection).wf(),
        receives(old(connection).packets(), old(connection).length(), old(ports).port(ports_recv.1)@) ==> tick
            + old(connection).length() <= u32::MAX,
    ensures
        final(connection).wf(),
        final(connection).length() == old(connection).length(),
        forall|other: PortID| other != ports_recv.1 ==> final(ports).port(other) == old(ports).port(other),
        ({
            let before = Line {
                source: old(ports).port(ports_recv.1)@,
                packets: old(connection).packets(),
                destination: None,
            };
            let after = before.after_recv(old(connection).length(), tick);
            &&& final(ports).port(ports_recv.1)@ == after.source
            &&& final(connection).packets() == after.packets
        }),
        !receives(old(connection).packets(), old(connection).length(), old(ports).port(ports_recv.1)@) ==> {
            &&& *final(connection) == *old(connection)
            &&& *final(ports) == *old(ports)
        },
{
    if !connection.can_insert() {
        return ;
    }
    if let Some((resource, count)) = ports.get(ports_recv.1).get() {
        ports.get_mut(ports_recv.1).set(resource, count - 1);
        connection.insert(tick, resource);
    }
}

/// Send phase of one connection: when the oldest item has completed its
/// transit and the destination port can take it, the item leaves the
/// connection and the port gains one unit. A port that holds another
/// resource, or that is filled to the limit, takes nothing, and then nothing
/// changes. `ports` are the ports of the machine that `ports_send` names.
pub fn connection_send(tick: u32, connection: &mut Connection, ports_send: &ConnectionPortSend, ports: &mut Ports)
    requires
        old(connection).wf(),
    ensures
        final(connection).wf(),
        final(connection).length() == old(connection).length(),
        forall|other: PortID| other != ports_send.1 ==> final(ports).port(other) == old(ports).port(other),
        ({
            let before = Line {
                source: None,
                packets: old(connection).packets(),
                destination: old(ports).port(ports_send.1)@,
            };
            let after = before.after_send(old(connection).length(), tick);
            &&& final(ports).port(ports_send.1)@ == after.destination
            &&& final(connection).packets() == after.packets
        }),
        !delivers(old(connection).packets(), old(connection).length(), tick, old(ports).port(ports_send.1)@) ==> {
            &&& *final(connection) == *old(connection)
            &&& *final(ports) == *old(ports)
        },
{
    if !connection.can_consume(tick) {
        return ;
    }
    let head = connection.peek().1;
    let (resource, count) = ports.get(ports_send.1).get_or(head);
    if resource != head || count == u16::MAX {
        return ;
    }
    ports.get_mut(ports_send.1).set(resource, count + 1);
    connection.consume();
}

} // verus!
