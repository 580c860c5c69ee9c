//! What every queue representation of a connection offers.

use vstd::prelude::*;
use crate::machine::connection_u16::ConnectionU16;
use crate::machine::connection_u4::ConnectionU4;
use crate::machine::ports::{Port, Ports};
use crate::resources::pipe::{occupant, transit_complete, InvalidTopology};
use crate::resources::ports::{EntityId, PortID, ResourceStore};
use crate::resources::resource::ResourceID;

verus! {

/// A capacity-bounded FIFO queue of items in transit, whatever its
/// representation. Every item spends as many ticks in the queue as the queue
/// has slots.
///
/// Representations that keep exact timestamps answer
/// `is_ready_to_consume` by the transit rule at every tick. Packed
/// representations keep a few bits per item and answer by the rule at the
/// ticks at which they are `exact_at`.
pub trait ConnectionQueue: Sized {
    /// The representation invariant of the queue.
    spec fn wf(&self) -> bool;

    /// Number of slots, which is also the transit time in ticks.
    spec fn length(&self) -> nat;

    /// The items in flight, oldest first, each with the tick at which it
    /// entered.
    spec fn packets(&self) -> Seq<(u32, ResourceID)>;

    /// What `is_ready_to_consume` answers at `tick`.
    spec fn ready(&self, tick: u32) -> bool;

    /// Whether the queue tells the time exactly at `tick`.
    spec fn exact_at(&self, tick: u32) -> bool;

    /// A well-formed queue never holds more items than it has slots.
    proof fn lemma_bounded(&self)
        requires
            self.wf(),
        ensures
            self.packets().len() <= self.length(),
    ;

    /// Only a queue that holds something is ever ready, and where the queue
    /// tells the time exactly it is ready by the transit rule: from the tick
    /// at which its oldest item has spent `length` ticks in it, and not
    /// before.
    proof fn lemma_ready(&self, tick: u32)
        requires
            self.wf(),
        ensures
            self.ready(tick) ==> self.packets().len() > 0,
            self.exact_at(tick) ==> (self.ready(tick) <==> transit_complete(self.packets(), self.length(), tick)),
    ;

    /// Number of slots, which is also the transit time in ticks.
    fn duration(&self) -> (duration: u32)
        requires
            self.wf(),
        ensures
            duration == self.length(),
    ;

    /// Enqueues `resource`, stamped with `tick`, behind the items in flight.
    /// The queue must not be full, and the tick at which the item completes
    /// its transit must lie in the range of the clock.
    fn enqueue_unchecked(&mut self, tick: u32, resource: ResourceID)
        requires
            old(self).wf(),
            old(self).packets().len() < old(self).length(),
            tick + old(self).length() <= u32::MAX,
        ensures
            final(self).wf(),
            final(self).length() == old(self).length(),
            final(self).packets() == old(self).packets().push((tick, resource)),
    ;

    /// Removes the oldest item. The queue must not be empty.
    fn consume_unchecked(&mut self)
        requires
            old(self).wf(),
            old(self).packets().len() > 0,
        ensures
            final(self).wf(),
            final(self).length() == old(self).length(),
            final(self).packets() == old(self).packets().drop_first(),
    ;

    /// The resource of the oldest item. The queue must not be empty.
    fn get_unchecked(&self) -> (resource: ResourceID)
        requires
            self.wf(),
            self.packets().len() > 0,
        ensures
            resource == self.packets()[0].1,
    ;

    /// Whether every slot is taken.
    fn is_full(&self) -> (full: bool)
        requires
            self.wf(),
        ensures
            full == (self.packets().len() == self.length()),
    ;

    /// Whether no item is in flight.
    fn is_empty(&self) -> (empty: bool)
        requires
            self.wf(),
        ensures
            empty == (self.packets().len() == 0),
    ;

    /// Whether the oldest item may leave at `tick_factory`.
    fn is_ready_to_consume(&self, tick_factory: u32) -> (ready: bool)
        requires
            self.wf(),
        ensures
            ready == self.ready(tick_factory),
    ;

    /// Which resource stands in each slot at `factory_tick`, slot 0 being the
    /// output end. Where the queue tells the time exactly, every item is
    /// drawn in the slot that the transit rule gives it. The queue itself is
    /// left as it is.
    fn resolve(&self, factory_tick: u32) -> (slots: Vec<Option<ResourceID>>)
        requires
            self.wf(),
        ensures
            slots@.len() == self.length(),
            self.exact_at(factory_tick) ==> forall|slot: int|
                0 <= slot < slots@.len() ==> #[trigger] slots@[slot] == occupant(
                    self.packets(),
                    self.length(),
                    factory_tick,
                    slot,
                    self.packets().len(),
                ),
    ;
}

/// The port a connection takes units from: owning machine and slot.
#[derive(Debug, Clone, Copy, PartialEq, Eq, Structural)]
pub struct ConnectionPortRecv(pub EntityId, pub PortID);

/// The port a connection delivers units to: owning machine and slot.
#[derive(Debug, Clone, Copy, PartialEq, Eq, Structural)]
pub struct ConnectionPortSend(pub EntityId, pub PortID);

/// The queue of a new connection, in the representation that suits its
/// length.
pub enum SpawnedQueue {
    /// Up to sixteen slots, packed.
    U4(ConnectionU4),
    /// More than sixteen slots, in a ring of packets.
    U16(ConnectionU16),
}

/// What makes up a new connection: the queue and the ports it is attached
/// to.
pub struct SpawnedConnection {
    pub queue: SpawnedQueue,
    pub send: Option<ConnectionPortSend>,
    pub recv: Option<ConnectionPortRecv>,
}

/// Makes a connection of `length` slots, at least one, that delivers to
/// `send` and takes from `recv`, each of which may be absent. Up to sixteen
/// slots are packed; longer connections get a ring of packets. A connection
/// from a port to that same port is refused.
pub fn spawn_connection(length: u16, send: Option<(EntityId, PortID)>, recv: Option<(EntityId, PortID)>) -> (spawned:
    Result<SpawnedConnection, InvalidTopology>)
    requires
        length > 0,
    ensures
        spawned is Err <==> send is Some && recv is Some && send == recv,
        spawned matches Err(why) ==> why == InvalidTopology::SelfLoop,
        spawned matches Ok(connection) ==> {
            &&& connection.send == match send {
                Some((entity, port)) => Some(ConnectionPortSend(entity, port)),
                None => None,
            }
            &&& connection.recv == match recv {
                Some((entity, port)) => Some(ConnectionPortRecv(entity, port)),
                None => None,
            }
            &&& match connection.queue {
                SpawnedQueue::U4(queue) => {
                    &&& length <= 16
                    &&& queue.wf()
                    &&& queue.length() == length
                    &&& queue.packets() == Seq::<(u32, ResourceID)>::empty()
                    &&& queue.clock() == 0
                },
                SpawnedQueue::U16(queue) => {
                    &&& length > 16
                    &&& queue.wf()
                    &&& queue.length() == length
                    &&& queue.packets() == Seq::<(u32, ResourceID)>::empty()
                },
            }
        },
{
    if let Some((to, into)) = send {
        if let Some((from, out)) = recv {
            if to == from && into == out {
                return Err(InvalidTopology::SelfLoop);
            }
        }
    }
    let queue = if length <= 16 {
        SpawnedQueue::U4(ConnectionU4::new(length as usize))
    } else {
        SpawnedQueue::U16(ConnectionU16::new(length))
    };
    let send = match send {
        Some((entity, port)) => Some(ConnectionPortSend(entity, port)),
        None => None,
    };
    let recv = match recv {
        Some((entity, port)) => Some(ConnectionPortRecv(entity, port)),
        None => None,
    };
    Ok(SpawnedConnection { queue, send, recv })
}

/// Whether the receive phase moves a unit: the queue has a free slot, and the
/// machine has the port and the port holds something.
pub open spec fn receives<T: ConnectionQueue>(connection: T, ports: Seq<Port>, key: int) -> bool {
    &&& connection.packets().len() < connection.length()
    &&& 0 <= key < ports.len()
    &&& ports[key]@ is Some
}

/// Whether the send phase moves a unit at `tick`: the queue is ready, the
/// machine has the port, and the port is empty or holds the resource of the
/// oldest item, with room for one more unit.
pub open spec fn delivers<T: ConnectionQueue>(connection: T, tick: u32, ports: Seq<Port>, key: int) -> bool {
    &&& connection.ready(tick)
    &&& 0 <= key < ports.len()
    &&& ResourceStore::compatible(ports[key]@, connection.packets()[0].1)
    &&& ports[key].room() > 0
}

/// Whether the receive phase that follows the send phase of the same tick
/// moves a unit: after what the send phase delivers the queue has a free
/// slot, and the machine of `source` has the port and the port holds
/// something.
pub open spec fn receives_after_send<T: ConnectionQueue>(
    connection: T,
    tick: u32,
    source: Seq<Port>,
    from: int,
    destination: Seq<Port>,
    to: int,
) -> bool {
    let in_flight = if delivers(connection, tick, destination, to) {
        connection.packets().len() - 1
    } else {
        connection.packets().len() as int
    };
    &&& in_flight < connection.length()
    &&& 0 <= from < source.len()
    &&& source[from]@ is Some
}

/// Whether the receive phase of `connection` would move a unit out of the
/// port that `ports_recv` names.
pub fn can_receive<T: ConnectionQueue>(connection: &T, ports_recv: &ConnectionPortRecv, ports: &Ports) -> (moves:
    bool)
    requires
        connection.wf(),
    ensures
        moves == receives(*connection, ports@, ports_recv.1.index()),
{
    proof {
        connection.lemma_bounded();
    }
    if connection.is_full() {
        return false;
    }
    match ports.get(ports_recv.1.key()) {
        Some(port) => port.resource().is_some(),
        None => false,
    }
}

/// Whether the send phase of `connection` at `tick` would move a unit into
/// the port that `ports_send` names.
pub fn can_deliver<T: ConnectionQueue>(tick: u32, connection: &T, ports_send: &ConnectionPortSend, ports: &Ports) -> (moves:
    bool)
    requires
        connection.wf(),
    ensures
        moves == delivers(*connection, tick, ports@, ports_send.1.index()),
{
    if !connection.is_ready_to_consume(tick) {
        return false;
    }
    proof {
        connection.lemma_ready(tick);
    }
    let resource_head = connection.get_unchecked();
    match ports.get(ports_send.1.key()) {
        Some(port) => port.remaining() > 0 && port.accepts(resource_head),
        None => false,
    }
}

/// Whether the receive phase that follows the send phase of the same tick
/// would move a unit out of the port that `ports_recv` names.
pub fn can_receive_after_send<T: ConnectionQueue>(
    tick: u32,
    connection: &T,
    ports_recv: &ConnectionPortRecv,
    source: &Ports,
    ports_send: &ConnectionPortSend,
    destination: &Ports,
) -> (moves: bool)
    requires
        connection.wf(),
    ensures
        moves == receives_after_send(
            *connection,
            tick,
            source@,
            ports_recv.1.index(),
            destination@,
            ports_send.1.index(),
        ),
{
    proof {
        connection.lemma_bounded();
        connection.lemma_ready(tick);
    }
    let free = can_deliver(tick, connection, ports_send, destination) || !connection.is_full();
    if !free {
        return false;
    }
    match source.get(ports_recv.1.key()) {
        Some(port) => port.resource().is_some(),
        None => false,
    }
}

/// Receive phase of one connection: when the queue has a free slot and the
/// source port holds something, one unit leaves the port and enters the queue
/// stamped with `tick`. Otherwise nothing changes. `ports` are the ports of
/// the machine that `ports_recv` names. Where a unit enters, the tick at which
/// it completes its transit must lie in the range of the clock.
pub fn do_connection_recv<T: ConnectionQueue>(
    tick: u32,
    connection: &mut T,
    ports_recv: &ConnectionPortRecv,
    ports: &mut Ports,
)
    requires
        old(connection).wf(),
        receives(*old(connection), old(ports)@, ports_recv.1.index()) ==> tick + old(connection).length()
            <= u32::MAX,
    ensures
        final(connection).wf(),
        final(connection).length() == old(connection).length(),
        final(ports)@.len() == old(ports)@.len(),
        forall|other: int|
            0 <= other < old(ports)@.len() && other != ports_recv.1.index() ==> final(ports)@[other] == old(
                ports,
            )@[other],
        receives(*old(connection), old(ports)@, ports_recv.1.index()) ==> {
            let port = old(ports)@[ports_recv.1.index()];
            let (resource, stored) = port@->0;
            &&& final(connection).packets() == old(connection).packets().push((tick, resource))
            &&& final(ports)@[ports_recv.1.index()]@ == ResourceStore::holding(resource, (stored - 1) as u16)
            &&& final(ports)@[ports_recv.1.index()].limit() == port.limit()
        },
        !receives(*old(connection), old(ports)@, ports_recv.1.index()) ==> {
            &&& *final(connection) == *old(connection)
            &&& final(ports)@ == old(ports)@
        },
{
    proof {
        connection.lemma_bounded();
    }
    if connection.is_full() {
        return ;
    }
    if let Some(port) = ports.get_mut(ports_recv.1.key()) {
        proof {
            port.lemma_occupied();
        }
        if let Some((resource, _)) = port.recv(1) {
            port.pop(1);
            connection.enqueue_unchecked(tick, resource);
        }
    }
}

/// Send phase of one connection: when the queue is ready and the destination
/// port can take the oldest item, the item leaves the queue and the port
/// gains one unit. A port that holds another resource, or that has no room,
/// takes nothing, and then nothing changes. `ports` are the ports of the
/// machine that `ports_send` names.
pub fn do_connection_send<T: ConnectionQueue>(
    tick: u32,
    connection: &mut T,
    ports_send: &ConnectionPortSend,
    ports: &mut Ports,
)
    requires
        old(connection).wf(),
    ensures
        final(connection).wf(),
        final(connection).length() == old(connection).length(),
        final(ports)@.len() == old(ports)@.len(),
        forall|other: int|
            0 <= other < old(ports)@.len() && other != ports_send.1.index() ==> final(ports)@[other] == old(
                ports,
            )@[other],
        delivers(*old(connection), tick, old(ports)@, ports_send.1.index()) ==> {
            let port = old(ports)@[ports_send.1.index()];
            &&& final(connection).packets() == old(connection).packets().drop_first()
            &&& final(ports)@[ports_send.1.index()]@ == Some(
                (old(connection).packets()[0].1, (port.units() + 1) as u16),
            )
            &&& final(ports)@[ports_send.1.index()].limit() == port.limit()
        },
        !delivers(*old(connection), tick, old(ports)@, ports_send.1.index()) ==> {
            &&& *final(connection) == *old(connection)
            &&& final(ports)@ == old(ports)@
        },
{
    if !connection.is_ready_to_consume(tick) {
        return ;
    }
    proof {
        connection.lemma_ready(tick);
    }
    let resource_head = connection.get_unchecked();
    if let Some(port) = ports.get_mut(ports_send.1.key()) {
        if port.remaining() == 0 || !port.accepts(resource_head) {
            return ;
        }
        let sent = port.send(resource_head, 1);
        assert(sent == Ok::<u16, ResourceID>(1u16));
        connection.consume_unchecked();
    }
}

/// Units in the port numbered `key`, none if there is no such port.
pub open spec fn units_at(ports: Seq<Port>, key: int) -> nat {
    if 0 <= key < ports.len() {
        ports[key].units()
    } else {
        0
    }
}

/// One tick of a connection that joins two machines: the send phase into
/// `destination`, then the receive phase from `source`, so that a slot freed
/// by a delivery can be taken in the same tick. No unit is made or lost: the
/// units in the two ports and in flight add up to what they were. Where a
/// unit enters, the tick at which it completes its transit must lie in the
/// range of the clock.
pub fn connection_send_recv<T: ConnectionQueue>(
    tick: u32,
    connection: &mut T,
    ports_recv: &ConnectionPortRecv,
    source: &mut Ports,
    ports_send: &ConnectionPortSend,
    destination: &mut Ports,
)
    requires
        old(connection).wf(),
        receives_after_send(
            *old(connection),
            tick,
            old(source)@,
            ports_recv.1.index(),
            old(destination)@,
            ports_send.1.index(),
        ) ==> tick + old(connection).length() <= u32::MAX,
    ensures
        final(connection).wf(),
        final(connection).length() == old(connection).length(),
        final(source)@.len() == old(source)@.len(),
        final(destination)@.len() == old(destination)@.len(),
        forall|other: int|
            0 <= other < old(source)@.len() && other != ports_recv.1.index() ==> final(source)@[other] == old(
                source,
            )@[other],
        forall|other: int|
            0 <= other < old(destination)@.len() && other != ports_send.1.index() ==> final(destination)@[other]
                == old(destination)@[other],
        ({
            let from = ports_recv.1.index();
            let to = ports_send.1.index();
            let delivered = delivers(*old(connection), tick, old(destination)@, to);
            let sent = if delivered {
                old(connection).packets().drop_first()
            } else {
                old(connection).packets()
            };
            let received = receives_after_send(
                *old(connection),
                tick,
                old(source)@,
                from,
                old(destination)@,
                to,
            );
            &&& delivered ==> final(destination)@[to]@ == Some(
                (old(connection).packets()[0].1, (old(destination)@[to].units() + 1) as u16),
            ) && final(destination)@[to].limit() == old(destination)@[to].limit()
            &&& !delivered ==> final(destination)@ == old(destination)@
            &&& received ==> {
                let (resource, stored) = old(source)@[from]@->0;
                &&& final(connection).packets() == sent.push((tick, resource))
                &&& final(source)@[from]@ == ResourceStore::holding(resource, (stored - 1) as u16)
                &&& final(source)@[from].limit() == old(source)@[from].limit()
            }
            &&& !received ==> final(connection).packets() == sent && final(source)@ == old(source)@
        }),
        units_at(final(source)@, ports_recv.1.index()) + final(connection).packets().len() + units_at(
            final(destination)@,
            ports_send.1.index(),
        ) == units_at(old(source)@, ports_recv.1.index()) + old(connection).packets().len() + units_at(
            old(destination)@,
            ports_send.1.index(),
        ),
        final(connection).packets().len() <= final(connection).length(),
{
    proof {
        connection.lemma_ready(tick);
        if 0 <= ports_recv.1.index() < source@.len() {
            source@[ports_recv.1.index()].lemma_occupied();
        }
    }
    do_connection_send(tick, connection, ports_send, destination);
    assert(units_at(destination@, ports_send.1.index()) + connection.packets().len() == units_at(
        old(destination)@,
        ports_send.1.index(),
    ) + old(connection).packets().len());
    let ghost sent = *connection;
    do_connection_recv(tick, connection, ports_recv, source);
    assert(units_at(source@, ports_recv.1.index()) + connection.packets().len() == units_at(
        old(source)@,
        ports_recv.1.index(),
    ) + sent.packets().len());
    proof {
        connection.lemma_bounded();
    }
}

/// One tick of a connection whose two ends are two ports of one machine: as
/// `connection_send_recv`, with the ports of that machine as both source and
/// destination. The two ends must not be the same port.
pub fn connection_send_recv_within<T: ConnectionQueue>(
    tick: u32,
    connection: &mut T,
    ports_recv: &ConnectionPortRecv,
    ports_send: &ConnectionPortSend,
    ports: &mut Ports,
)
    requires
        old(connection).wf(),
        ports_recv.1 != ports_send.1,
        receives_after_send(
            *old(connection),
            tick,
            old(ports)@,
            ports_recv.1.index(),
            old(ports)@,
            ports_send.1.index(),
        ) ==> tick + old(connection).length() <= u32::MAX,
    ensures
        final(connection).wf(),
        final(connection).length() == old(connection).length(),
        final(ports)@.len() == old(ports)@.len(),
        forall|other: int|
            0 <= other < old(ports)@.len() && other != ports_recv.1.index() && other != ports_send.1.index()
                ==> final(ports)@[other] == old(ports)@[other],
        ({
            let from = ports_recv.1.index();
            let to = ports_send.1.index();
            let delivered = delivers(*old(connection), tick, old(ports)@, to);
            let sent = if delivered {
                old(connection).packets().drop_first()
            } else {
                old(connection).packets()
            };
            let received = receives_after_send(*old(connection), tick, old(ports)@, from, old(ports)@, to);
            &&& delivered ==> final(ports)@[to]@ == Some(
                (old(connection).packets()[0].1, (old(ports)@[to].units() + 1) as u16),
            ) && final(ports)@[to].limit() == old(ports)@[to].limit()
            &&& !delivered && 0 <= to < old(ports)@.len() ==> final(ports)@[to] == old(ports)@[to]
            &&& received ==> {
                let (resource, stored) = old(ports)@[from]@->0;
                &&& final(connection).packets() == sent.push((tick, resource))
                &&& final(ports)@[from]@ == ResourceStore::holding(resource, (stored - 1) as u16)
                &&& final(ports)@[from].limit() == old(ports)@[from].limit()
            }
            &&& !received ==> final(connection).packets() == sent
            &&& !received && 0 <= from < old(ports)@.len() ==> final(ports)@[from] == old(ports)@[from]
        }),
        units_at(final(ports)@, ports_recv.1.index()) + final(connection).packets().len() + units_at(
            final(ports)@,
            ports_send.1.index(),
        ) == units_at(old(ports)@, ports_recv.1.index()) + old(connection).packets().len() + units_at(
            old(ports)@,
            ports_send.1.index(),
        ),
        final(connection).packets().len() <= final(connection).length(),
{
    proof {
        connection.lemma_ready(tick);
        if 0 <= ports_recv.1.index() < ports@.len() {
            ports@[ports_recv.1.index()].lemma_occupied();
        }
    }
    do_connection_send(tick, connection, ports_send, ports);
    assert(units_at(ports@, ports_send.1.index()) + connection.packets().len() == units_at(
        old(ports)@,
        ports_send.1.index(),
    ) + old(connection).packets().len());
    let ghost sent = *connection;
    let ghost between = ports@;
    do_connection_recv(tick, connection, ports_recv, ports);
    assert(units_at(ports@, ports_recv.1.index()) + connection.packets().len() == units_at(
        between,
        ports_recv.1.index(),
    ) + sent.packets().len());
    proof {
        connection.lemma_bounded();
    }
}

} // verus!
