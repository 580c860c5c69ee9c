//! Pipes: fixed-length, fixed-transit-time FIFO channels between two ports,
//! and the per-tick protocol that moves units through them.

use vstd::prelude::*;
use crate::resources::ports::{resident, units, EntityId, PortID, PortRecv, PortSend, Ports};
use self::simple::PipeSimple;
use crate::resources::resource::ResourceID;

pub mod simple;

verus! {

/// Whether the oldest of `packets` has spent `length` ticks in the pipe by
/// `tick`: an item that entered at tick `t` may leave from tick `t + length`
/// on, and not before.
pub open spec fn transit_complete(packets: Seq<(u32, ResourceID)>, length: nat, tick: u32) -> bool {
    packets.len() > 0 && tick >= packets[0].0 + length
}

/// Ticks that have passed at `tick` since an item entered at `entered`; zero
/// when `tick` lies before that.
pub open spec fn elapsed(entered: u32, tick: u32) -> nat {
    if tick >= entered {
        (tick - entered) as nat
    } else {
        0
    }
}

/// How many slots the `index`-th oldest item has moved away from the input
/// end of a pipe of `length` slots, `elapsed` ticks after it entered. An item
/// moves one slot per tick until it stands behind the items before it.
pub open spec fn travelled(length: nat, index: nat, elapsed: nat) -> nat
    recommends
        index < length,
{
    let free = (length - index - 1) as nat;
    if elapsed < free {
        elapsed
    } else {
        free
    }
}

/// The slot of the `index`-th oldest of `packets` at `tick`, counted from the
/// output end of the pipe.
pub open spec fn slot_from_output(packets: Seq<(u32, ResourceID)>, length: nat, tick: u32, index: int) -> int
    recommends
        0 <= index < packets.len() <= length,
{
    length - 1 - travelled(length, index as nat, elapsed(packets[index].0, tick))
}

/// The resource shown in `slot` when only the `upto` oldest of `packets` are
/// drawn, oldest first: that of the newest among them that stands in `slot`.
pub open spec fn occupant(packets: Seq<(u32, ResourceID)>, length: nat, tick: u32, slot: int, upto: nat) -> Option<ResourceID>
    decreases upto,
{
    if upto == 0 {
        None
    } else if slot_from_output(packets, length, tick, upto - 1) == slot {
        Some(packets[upto - 1].1)
    } else {
        occupant(packets, length, tick, slot, (upto - 1) as nat)
    }
}

/// The resource shown in `slot` when the `upto` oldest items of a queue are
/// drawn, oldest first, the `i`-th in slot `places[i]`: that of the newest
/// among them that stands in `slot`.
pub open spec fn newest_in(places: Seq<int>, resources: Seq<ResourceID>, slot: int, upto: nat) -> Option<
    ResourceID,
>
    decreases upto,
{
    if upto == 0 {
        None
    } else if places[upto - 1] == slot {
        Some(resources[upto - 1])
    } else {
        newest_in(places, resources, slot, (upto - 1) as nat)
    }
}

/// Drawing every item in the slot that the transit rule gives it shows the
/// picture of the queue.
pub proof fn lemma_newest_is_occupant(
    packets: Seq<(u32, ResourceID)>,
    length: nat,
    tick: u32,
    places: Seq<int>,
    resources: Seq<ResourceID>,
    slot: int,
    upto: nat,
)
    requires
        forall|i: int|
            0 <= i < upto ==> #[trigger] places[i] == slot_from_output(packets, length, tick, i) && resources[i]
                == packets[i].1,
    ensures
        newest_in(places, resources, slot, upto) == occupant(packets, length, tick, slot, upto),
    decreases upto,
{
    if upto > 0 {
        assert(places[upto - 1] == slot_from_output(packets, length, tick, upto - 1));
        lemma_newest_is_occupant(packets, length, tick, places, resources, slot, (upto - 1) as nat);
    }
}

/// Whether the `index`-th oldest items of two queues carry the same resource
/// and stand in the same slot at `tick`.
pub open spec fn drawn_alike(
    a: Seq<(u32, ResourceID)>,
    b: Seq<(u32, ResourceID)>,
    length: nat,
    tick: u32,
    index: int,
) -> bool {
    a[index].1 == b[index].1 && slot_from_output(a, length, tick, index) == slot_from_output(b, length, tick, index)
}

/// Two queues whose items carry the same resources and stand in the same
/// slots show the same picture.
pub proof fn lemma_occupant_agrees(
    a: Seq<(u32, ResourceID)>,
    b: Seq<(u32, ResourceID)>,
    length: nat,
    tick: u32,
    slot: int,
    upto: nat,
)
    requires
        forall|i: int| 0 <= i < upto ==> #[trigger] drawn_alike(a, b, length, tick, i),
    ensures
        occupant(a, length, tick, slot, upto) == occupant(b, length, tick, slot, upto),
    decreases upto,
{
    if upto > 0 {
        assert(drawn_alike(a, b, length, tick, upto - 1));
        lemma_occupant_agrees(a, b, length, tick, slot, (upto - 1) as nat);
    }
}

/// A capacity-bounded FIFO channel in which every item spends a fixed number
/// of ticks, equal to the number of slots.
pub trait Pipe: Sized {
    /// The representation invariant of the pipe.
    spec fn wf(&self) -> bool;

    /// Number of slots, which is also the transit time in ticks.
    spec fn length(&self) -> nat;

    /// The items in flight, oldest first, each with the tick at which it
    /// entered.
    spec fn packets(&self) -> Seq<(u32, ResourceID)>;

    /// A well-formed pipe never holds more items than it has slots.
    proof fn lemma_bounded(&self)
        requires
            self.wf(),
        ensures
            self.packets().len() <= self.length(),
    ;

    /// Enqueues `resource`, stamped with `tick`, behind the items in flight.
    /// The pipe must not be full.
    fn enqueue_unchecked(&mut self, tick: u32, resource: ResourceID)
        requires
            old(self).wf(),
            old(self).packets().len() < old(self).length(),
        ensures
            final(self).wf(),
            final(self).length() == old(self).length(),
            final(self).packets() == old(self).packets().push((tick, resource)),
    ;

    /// Removes the oldest item. The pipe must not be empty.
    fn consume_unchecked(&mut self)
        requires
            old(self).wf(),
            old(self).packets().len() > 0,
        ensures
            final(self).wf(),
            final(self).length() == old(self).length(),
            final(self).packets() == old(self).packets().drop_first(),
    ;

    /// The resource of the oldest item. The pipe must not be empty.
    fn get_unchecked(&self) -> (resource: ResourceID)
        requires
            self.wf(),
            self.packets().len() > 0,
        ensures
            resource == self.packets()[0].1,
    ;

    /// Whether every slot is taken.
    fn is_full(&self) -> (full: bool)
        requires
            self.wf(),
        ensures
            full == (self.packets().len() == self.length()),
    ;

    /// Whether no item is in flight.
    fn is_empty(&self) -> (empty: bool)
        requires
            self.wf(),
        ensures
            empty == (self.packets().len() == 0),
    ;

    /// Whether the oldest item has completed its transit at `tick_factory`.
    fn is_ready_to_consume(&self, tick_factory: u32) -> (ready: bool)
        requires
            self.wf(),
        ensures
            ready == transit_complete(self.packets(), self.length(), tick_factory),
    ;

    /// Which resource stands in each slot at `factory_tick`, slot 0 being the
    /// output end. The pipe itself is left as it is.
    fn resolve(&self, factory_tick: u32) -> (slots: Vec<Option<ResourceID>>)
        requires
            self.wf(),
        ensures
            slots@.len() == self.length(),
            forall|slot: int|
                0 <= slot < slots@.len() ==> #[trigger] slots@[slot] == occupant(
                    self.packets(),
                    self.length(),
                    factory_tick,
                    slot,
                    self.packets().len(),
                ),
    ;
}

/// Why two ports cannot be linked by a pipe.
#[derive(Debug, Clone, Copy, PartialEq, Eq, Structural)]
pub enum InvalidTopology {
    /// Both ends of the pipe name the same port of the same machine.
    SelfLoop,
}

/// What makes up a new pipe: the queue and the ports it is attached to.
pub struct PipeBundle {
    pub pipe: PipeSimple,
    pub send: Option<PortSend>,
    pub recv: Option<PortRecv>,
}

/// Makes a pipe of `length` slots that delivers to `send` and takes from
/// `recv`, each of which may be absent. A pipe from a port to that same port
/// is refused.
pub fn spawn_pipe(length: u32, send: Option<(EntityId, PortID)>, recv: Option<(EntityId, PortID)>) -> (spawned:
    Result<PipeBundle, InvalidTopology>)
    ensures
        spawned is Err <==> send is Some && recv is Some && send == recv,
        spawned matches Err(why) ==> why == InvalidTopology::SelfLoop,
        spawned matches Ok(bundle) ==> {
            &&& bundle.pipe.wf()
            &&& bundle.pipe.length() == length
            &&& bundle.pipe.packets() == Seq::<(u32, ResourceID)>::empty()
            &&& bundle.send == match send {
                Some((entity, port)) => Some(PortSend(entity, port)),
                None => None,
            }
            &&& bundle.recv == match recv {
                Some((entity, port)) => Some(PortRecv(entity, port)),
                None => None,
            }
        },
{
    if let Some((to, into)) = send {
        if let Some((from, out)) = recv {
            if to == from && into == out {
                return Err(InvalidTopology::SelfLoop);
            }
        }
    }
    let send = match send {
        Some((entity, port)) => Some(PortSend(entity, port)),
        None => None,
    };
    let recv = match recv {
        Some((entity, port)) => Some(PortRecv(entity, port)),
        None => None,
    };
    Ok(PipeBundle { pipe: PipeSimple::new(length), send, recv })
}

/// Whether the receive phase moves a unit: the pipe has a free slot and the
/// source port holds something.
pub open spec fn receives(packets: Seq<(u32, ResourceID)>, length: nat, source: Option<(ResourceID, u16)>) -> bool {
    packets.len() < length && source is Some
}

/// Whether the send phase moves a unit at `tick`: the oldest item has
/// completed its transit, and the destination port is empty or holds the same
/// resource with room for one more unit.
pub open spec fn delivers(
    packets: Seq<(u32, ResourceID)>,
    length: nat,
    tick: u32,
    destination: Option<(ResourceID, u16)>,
) -> bool {
    &&& transit_complete(packets, length, tick)
    &&& match destination {
        Some((resident, count)) => resident == packets[0].1 && count < u16::MAX,
        None => true,
    }
}

/// One pipe together with what its two ports hold, as plain values.
pub struct Line {
    /// What the port at the input end holds.
    pub source: Option<(ResourceID, u16)>,
    /// The items in flight, oldest first, each with the tick at which it
    /// entered.
    pub packets: Seq<(u32, ResourceID)>,
    /// What the port at the output end holds.
    pub destination: Option<(ResourceID, u16)>,
}

impl Line {
    /// A line as the ports and pipes of this module keep it: no more items
    /// than slots, and no port that holds zero units of something.
    pub open spec fn wf(self, length: nat) -> bool {
        &&& self.packets.len() <= length
        &&& self.source matches Some((_, count)) ==> count > 0
        &&& self.destination matches Some((_, count)) ==> count > 0
    }

    /// Units in the source port, in flight and in the destination port
    /// together.
    pub open spec fn total(self) -> nat {
        units(self.source) + self.packets.len() + units(self.destination)
    }

    /// The line after the send phase at `tick`.
    pub open spec fn after_send(self, length: nat, tick: u32) -> Line {
        if delivers(self.packets, length, tick, self.destination) {
            Line {
                source: self.source,
                packets: self.packets.drop_first(),
                destination: Some((self.packets[0].1, (units(self.destination) + 1) as u16)),
            }
        } else {
            self
        }
    }

    /// The line after the receive phase at `tick`.
    pub open spec fn after_recv(self, length: nat, tick: u32) -> Line {
        if receives(self.packets, length, self.source) {
            let (resource, count) = self.source->0;
            Line {
                source: if count == 1 {
                    None
                } else {
                    Some((resource, (count - 1) as u16))
                },
                packets: self.packets.push((tick, resource)),
                destination: self.destination,
            }
        } else {
            self
        }
    }

    /// The line after one tick: the send phase, then the receive phase, so
    /// that a slot freed by a delivery can be taken in the same tick.
    pub open spec fn after_tick(self, length: nat, tick: u32) -> Line {
        self.after_send(length, tick).after_recv(length, tick)
    }

    /// The line after the ticks of `ticks`, one after the other, with nothing
    /// else touching its ports in between.
    pub open spec fn after_ticks(self, length: nat, ticks: Seq<u32>) -> Line
        decreases ticks.len(),
    {
        if ticks.len() == 0 {
            self
        } else {
            self.after_ticks(length, ticks.drop_last()).after_tick(length, ticks.last())
        }
    }
}

/// Receive phase of one pipe: when the pipe has a free slot and the source
/// port holds something, one unit leaves the port and enters the pipe stamped
/// with `tick`. Otherwise nothing changes. `ports` are the ports of the
/// machine that `ports_recv` names.
pub fn do_connection_recv<T: Pipe>(tick: u32, connection: &mut T, ports_recv: &PortRecv, ports: &mut Ports)
    requires
        old(connection).wf(),
    ensures
        final(connection).wf(),
        final(connection).length() == old(connection).length(),
        forall|other: PortID| other != ports_recv.1 ==> final(ports).port(other) == old(ports).port(other),
        ({
            let before = Line {
                source: old(ports).port(ports_recv.1)@,
                packets: old(connection).packets(),
                destination: None,
            };
            let after = before.after_recv(old(connection).length(), tick);
            &&& final(ports).port(ports_recv.1)@ == after.source
            &&& final(connection).packets() == after.packets
        }),
        !receives(old(connection).packets(), old(connection).length(), old(ports).port(ports_recv.1)@) ==> {
            &&& *final(connection) == *old(connection)
            &&& *final(ports) == *old(ports)
        },
{
    proof {
        connection.lemma_bounded();
    }
    if connection.is_full() {
        return ;
    }
    if let Some((resource, count)) = ports.get(ports_recv.1).get() {
        ports.get_mut(ports_recv.1).set(resource, count - 1);
        connection.enqueue_unchecked(tick, resource);
    }
}

/// Send phase of one pipe: when the oldest item has completed its transit and
/// the destination port can take it, the item leaves the pipe and the port
/// gains one unit. A port that holds another resource, or that is filled to
/// the limit, takes nothing, and then nothing changes. `ports` are the ports
/// of the machine that `ports_send` names.
pub fn do_connection_send<T: Pipe>(tick: u32, connection: &mut T, ports_send: &PortSend, ports: &mut Ports)
    requires
        old(connection).wf(),
    ensures
        final(connection).wf(),
        final(connection).length() == old(connection).length(),
        forall|other: PortID| other != ports_send.1 ==> final(ports).port(other) == old(ports).port(other),
        ({
            let before = Line {
                source: None,
                packets: old(connection).packets(),
                destination: old(ports).port(ports_send.1)@,
            };
            let after = before.after_send(old(connection).length(), tick);
            &&& final(ports).port(ports_send.1)@ == after.destination
            &&& final(connection).packets() == after.packets
        }),
        !delivers(old(connection).packets(), old(connection).length(), tick, old(ports).port(ports_send.1)@) ==> {
            &&& *final(connection) == *old(connection)
            &&& *final(ports) == *old(ports)
        },
{
    if !connection.is_ready_to_consume(tick) {
        return ;
    }
    let resource_head = connection.get_unchecked();
    let (resource, count) = ports.get(ports_send.1).get_or(resource_head);
    if resource != resource_head || count == u16::MAX {
        return ;
    }
    ports.get_mut(ports_send.1).set(resource, count + 1);
    connection.consume_unchecked();
}

/// One tick of a pipe that joins two machines: the send phase into
/// `destination`, then the receive phase from `source`, so that a slot freed
/// by a delivery can be taken in the same tick. No unit is made or lost.
pub fn connection_send_recv<T: Pipe>(
    tick: u32,
    connection: &mut T,
    ports_recv: &PortRecv,
    source: &mut Ports,
    ports_send: &PortSend,
    destination: &mut Ports,
)
    requires
        old(connection).wf(),
    ensures
        final(connection).wf(),
        final(connection).length() == old(connection).length(),
        forall|other: PortID| other != ports_recv.1 ==> final(source).port(other) == old(source).port(other),
        forall|other: PortID| other != ports_send.1 ==> final(destination).port(other) == old(destination).port(other),
        ({
            let before = Line {
                source: old(source).port(ports_recv.1)@,
                packets: old(connection).packets(),
                destination: old(destination).port(ports_send.1)@,
            };
            let after = Line {
                source: final(source).port(ports_recv.1)@,
                packets: final(connection).packets(),
                destination: final(destination).port(ports_send.1)@,
            };
            &&& before.wf(old(connection).length())
            &&& after == before.after_tick(old(connection).length(), tick)
            &&& after.total() == before.total()
        }),
{
    proof {
        connection.lemma_bounded();
        source.port(ports_recv.1).lemma_occupied();
        destination.port(ports_send.1).lemma_occupied();
    }
    let ghost before = Line {
        source: source.port(ports_recv.1)@,
        packets: connection.packets(),
        destination: destination.port(ports_send.1)@,
    };
    do_connection_send(tick, connection, ports_send, destination);
    do_connection_recv(tick, connection, ports_recv, source);
    proof {
        lemma_tick_conserves_units(before, connection.length(), tick);
    }
}

/// One tick of a pipe whose two ends are two ports of one machine: the send
/// phase, then the receive phase, on the ports of that machine. The two ends
/// must not be the same port. No unit is made or lost.
pub fn connection_send_recv_within<T: Pipe>(
    tick: u32,
    connection: &mut T,
    ports_recv: &PortRecv,
    ports_send: &PortSend,
    ports: &mut Ports,
)
    requires
        old(connection).wf(),
        ports_recv.1 != ports_send.1,
    ensures
        final(connection).wf(),
        final(connection).length() == old(connection).length(),
        forall|other: PortID|
            other != ports_recv.1 && other != ports_send.1 ==> final(ports).port(other) == old(ports).port(other),
        ({
            let before = Line {
                source: old(ports).port(ports_recv.1)@,
                packets: old(connection).packets(),
                destination: old(ports).port(ports_send.1)@,
            };
            let after = Line {
                source: final(ports).port(ports_recv.1)@,
                packets: final(connection).packets(),
                destination: final(ports).port(ports_send.1)@,
            };
            &&& before.wf(old(connection).length())
            &&& after == before.after_tick(old(connection).length(), tick)
            &&& after.total() == before.total()
        }),
{
    proof {
        connection.lemma_bounded();
        ports.port(ports_recv.1).lemma_occupied();
        ports.port(ports_send.1).lemma_occupied();
    }
    let ghost before = Line {
        source: ports.port(ports_recv.1)@,
        packets: connection.packets(),
        destination: ports.port(ports_send.1)@,
    };
    do_connection_send(tick, connection, ports_send, ports);
    do_connection_recv(tick, connection, ports_recv, ports);
    proof {
        lemma_tick_conserves_units(before, connection.length(), tick);
    }
}

/// One tick of a pipe with whatever ends it has: the send phase if a
/// destination is attached, then the receive phase if a source is attached.
/// A pipe without ends stays as it is.
pub fn connection_tick<T: Pipe>(
    tick: u32,
    connection: &mut T,
    recv: Option<(&PortRecv, &mut Ports)>,
    send: Option<(&PortSend, &mut Ports)>,
)
    requires
        old(connection).wf(),
    ensures
        final(connection).wf(),
        final(connection).length() == old(connection).length(),
        recv is None && send is None ==> *final(connection) == *old(connection),
        ({
            let before = Line {
                source: match recv {
                    Some((ports_recv, source)) => source.port(ports_recv.1)@,
                    None => None,
                },
                packets: old(connection).packets(),
                destination: match send {
                    Some((ports_send, destination)) => destination.port(ports_send.1)@,
                    None => None,
                },
            };
            let sent = if send is Some {
                before.after_send(old(connection).length(), tick)
            } else {
                before
            };
            let after = if recv is Some {
                sent.after_recv(old(connection).length(), tick)
            } else {
                sent
            };
            &&& final(connection).packets() == after.packets
            &&& recv matches Some((ports_recv, source)) ==> {
                &&& final(source).port(ports_recv.1)@ == after.source
                &&& forall|other: PortID|
                    other != ports_recv.1 ==> final(source).port(other) == source.port(other)
            }
            &&& send matches Some((ports_send, destination)) ==> {
                &&& final(destination).port(ports_send.1)@ == after.destination
                &&& forall|other: PortID|
                    other != ports_send.1 ==> final(destination).port(other) == destination.port(other)
            }
        }),
{
    if let Some((ports_send, destination)) = send {
        do_connection_send(tick, connection, ports_send, destination);
    }
    if let Some((ports_recv, source)) = recv {
        do_connection_recv(tick, connection, ports_recv, source);
    }
}

/// Neither phase makes or loses a unit: what leaves a port enters the pipe,
/// and what leaves the pipe enters a port.
pub proof fn lemma_tick_conserves_units(line: Line, length: nat, tick: u32)
    requires
        line.wf(length),
    ensures
        line.after_send(length, tick).wf(length),
        line.after_send(length, tick).total() == line.total(),
        line.after_tick(length, tick).wf(length),
        line.after_tick(length, tick).total() == line.total(),
{
}

/// Over any run of ticks in which nothing else touches the two ports, the
/// units in the source port, in flight and in the destination port add up to
/// what they were at the start.
pub proof fn lemma_units_conserved(line: Line, length: nat, ticks: Seq<u32>)
    requires
        line.wf(length),
    ensures
        line.after_ticks(length, ticks).wf(length),
        line.after_ticks(length, ticks).total() == line.total(),
    decreases ticks.len(),
{
    if ticks.len() > 0 {
        lemma_units_conserved(line, length, ticks.drop_last());
        lemma_tick_conserves_units(line.after_ticks(length, ticks.drop_last()), length, ticks.last());
    }
}

/// A pipe never holds more items than it has slots: over any run of ticks
/// the items in flight stay within the length of the pipe.
pub proof fn lemma_capacity_kept(line: Line, length: nat, ticks: Seq<u32>)
    requires
        line.wf(length),
    ensures
        line.after_ticks(length, ticks).packets.len() <= length,
{
    lemma_units_conserved(line, length, ticks);
}

/// A port never changes its resource while it holds units: over any run of
/// ticks, a destination that holds a resource goes on holding that resource,
/// and a source that still holds something holds what it held at the start.
pub proof fn lemma_ports_keep_resource(line: Line, length: nat, ticks: Seq<u32>)
    requires
        line.wf(length),
    ensures
        line.destination is Some ==> resident(line.after_ticks(length, ticks).destination) == resident(
            line.destination,
        ),
        line.after_ticks(length, ticks).source is Some ==> resident(line.after_ticks(length, ticks).source)
            == resident(line.source),
    decreases ticks.len(),
{
    if ticks.len() > 0 {
        lemma_units_conserved(line, length, ticks.drop_last());
        lemma_ports_keep_resource(line, length, ticks.drop_last());
    }
}

/// The pipe after each of `items` has been enqueued in turn.
pub open spec fn enqueued(packets: Seq<(u32, ResourceID)>, items: Seq<(u32, ResourceID)>) -> Seq<(u32, ResourceID)>
    decreases items.len(),
{
    if items.len() == 0 {
        packets
    } else {
        enqueued(packets, items.drop_last()).push(items.last())
    }
}

/// The pipe after its oldest item has been consumed `count` times.
pub open spec fn consumed(packets: Seq<(u32, ResourceID)>, count: nat) -> Seq<(u32, ResourceID)>
    decreases count,
{
    if count == 0 {
        packets
    } else {
        consumed(packets, (count - 1) as nat).drop_first()
    }
}

/// Enqueueing puts the new items behind those in flight, in the order given.
pub proof fn lemma_enqueued(packets: Seq<(u32, ResourceID)>, items: Seq<(u32, ResourceID)>)
    ensures
        enqueued(packets, items) == packets + items,
    decreases items.len(),
{
    if items.len() > 0 {
        lemma_enqueued(packets, items.drop_last());
        assert(items.drop_last().push(items.last()) == items);
    }
    assert(enqueued(packets, items) == packets + items);
}

/// Consuming `count` times takes the `count` oldest items away.
pub proof fn lemma_consumed(packets: Seq<(u32, ResourceID)>, count: nat)
    requires
        count <= packets.len(),
    ensures
        consumed(packets, count) == packets.skip(count as int),
    decreases count,
{
    if count > 0 {
        lemma_consumed(packets, (count - 1) as nat);
    }
    assert(consumed(packets, count) == packets.skip(count as int));
}

/// The queue after `steps` have been taken one after the other, where an
/// item stands for enqueueing it and `None` for consuming the oldest.
pub open spec fn stepped(packets: Seq<(u32, ResourceID)>, steps: Seq<Option<(u32, ResourceID)>>) -> Seq<
    (u32, ResourceID),
>
    decreases steps.len(),
{
    if steps.len() == 0 {
        packets
    } else {
        match steps.last() {
            Some(item) => stepped(packets, steps.drop_last()).push(item),
            None => stepped(packets, steps.drop_last()).drop_first(),
        }
    }
}

/// Whether a queue of `length` slots allows each of `steps` when its turn
/// comes: an enqueue needs a free slot, and a consume needs an item.
pub open spec fn steps_allowed(
    packets: Seq<(u32, ResourceID)>,
    length: nat,
    steps: Seq<Option<(u32, ResourceID)>>,
) -> bool
    decreases steps.len(),
{
    if steps.len() == 0 {
        true
    } else {
        &&& steps_allowed(packets, length, steps.drop_last())
        &&& match steps.last() {
            Some(_) => stepped(packets, steps.drop_last()).len() < length,
            None => stepped(packets, steps.drop_last()).len() > 0,
        }
    }
}

/// The capacity bound holds in every state that can be reached: whatever
/// enqueues and consumes are taken, each where the queue allows it, the
/// queue never holds more items than it has slots.
pub proof fn lemma_capacity_reachable(
    packets: Seq<(u32, ResourceID)>,
    length: nat,
    steps: Seq<Option<(u32, ResourceID)>>,
)
    requires
        packets.len() <= length,
        steps_allowed(packets, length, steps),
    ensures
        stepped(packets, steps).len() <= length,
    decreases steps.len(),
{
    if steps.len() > 0 {
        lemma_capacity_reachable(packets, length, steps.drop_last());
    }
}

/// Items leave in the order in which they entered: of items enqueued into
/// an empty pipe, whatever their ticks, the one that stands at the head after
/// `k` have been consumed is the one that was enqueued as the `k`-th.
pub proof fn lemma_fifo(items: Seq<(u32, ResourceID)>, k: nat)
    requires
        k < items.len(),
    ensures
        consumed(enqueued(Seq::empty(), items), k).len() == items.len() - k,
        consumed(enqueued(Seq::empty(), items), k)[0] == items[k as int],
{
    lemma_enqueued(Seq::empty(), items);
    assert(Seq::<(u32, ResourceID)>::empty() + items == items);
    lemma_consumed(items, k);
}

/// The transit time is exact: once an item enqueued at tick `entered`
/// stands at the head of a pipe of `length` slots, it is ready from tick
/// `entered + length` on and at no tick before.
pub proof fn lemma_transit_time(
    packets: Seq<(u32, ResourceID)>,
    length: nat,
    entered: u32,
    resource: ResourceID,
    tick: u32,
)
    ensures
        ({
            let queue = consumed(enqueued(packets, seq![(entered, resource)]), packets.len());
            &&& queue == seq![(entered, resource)]
            &&& transit_complete(queue, length, tick) <==> tick >= entered + length
        }),
{
    lemma_enqueued(packets, seq![(entered, resource)]);
    lemma_consumed(packets + seq![(entered, resource)], packets.len());
    assert((packets + seq![(entered, resource)]).skip(packets.len() as int) == seq![(entered, resource)]);
}

} // verus!
