//! A connection kept as a belt of cells that moves one cell per tick, with a
//! queue of arrived items behind it.

use vstd::prelude::*;
use crate::machine::ports::Port;
use crate::resources::pipe::InvalidTopology;
use crate::resources::ports::{EntityId, PortID, ResourceStore};
use crate::resources::resource::ResourceID;

verus! {

/// Number of ticks an item spends in a connection.
pub type ConnectionDuration = u16;

/// Number of items in a connection, on the belt and arrived together.
pub struct ConnectionPacketCounter(u16);

/// Where on the belt the cell stands that arrives with the next tick.
pub struct ConnectionRecvHead(u16);

/// Where on the belt the cell stands that takes what enters.
pub struct ConnectionRecvTail(u16);

/// The cells of the belt.
pub struct ConnectionRecvBody(Vec<Option<ResourceID>>);

/// The port a connection takes units from: owning machine and slot.
#[derive(Debug, Clone, Copy, PartialEq, Eq, Structural)]
pub struct ConnectionRecvPort(pub EntityId, pub PortID);

/// Where in the ring of arrived items the oldest stands.
pub struct ConnectionSendHead(u16);

/// Where in the ring of arrived items the next one goes.
pub struct ConnectionSendTail(u16);

/// The ring of arrived items.
pub struct ConnectionSendBody(Vec<Option<ResourceID>>);

/// The port a connection delivers units to: owning machine and slot.
#[derive(Debug, Clone, Copy, PartialEq, Eq, Structural)]
pub struct ConnectionSendPort(pub EntityId, pub PortID);

/// A connection of `length` cells. The belt moves by one cell with every
/// tick; what enters is put in the cell at the input end, and a cell that
/// reaches the output end after `length` ticks hands its item to the queue of
/// arrived items, from which the send phase delivers.
pub struct ConnectionBundle {
    packet_counter: ConnectionPacketCounter,
    recv_head: ConnectionRecvHead,
    recv_tail: ConnectionRecvTail,
    recv_body: ConnectionRecvBody,
    send_head: ConnectionSendHead,
    send_tail: ConnectionSendTail,
    send_body: ConnectionSendBody,
}

/// Number of cells of `cells` that hold an item.
pub open spec fn occupied(cells: Seq<Option<ResourceID>>) -> nat
    decreases cells.len(),
{
    if cells.len() == 0 {
        0
    } else {
        occupied(cells.drop_last()) + if cells.last() is Some {
            1nat
        } else {
            0nat
        }
    }
}

/// Taking the first cell away takes its item out of the count.
pub proof fn lemma_occupied_drop_first(cells: Seq<Option<ResourceID>>)
    requires
        cells.len() > 0,
    ensures
        occupied(cells) == occupied(cells.drop_first()) + if cells[0] is Some {
            1nat
        } else {
            0nat
        },
    decreases cells.len(),
{
    if cells.len() == 1 {
        assert(cells.drop_first() =~= cells.drop_last());
    } else {
        lemma_occupied_drop_first(cells.drop_last());
        assert(cells.drop_last().drop_first() =~= cells.drop_first().drop_last());
    }
}

/// Filling or emptying the last cell changes the count by that cell alone.
pub proof fn lemma_occupied_last(cells: Seq<Option<ResourceID>>, cell: Option<ResourceID>)
    requires
        cells.len() > 0,
    ensures
        occupied(cells.update(cells.len() - 1, cell)) + if cells.last() is Some {
            1nat
        } else {
            0nat
        } == occupied(cells) + if cell is Some {
            1nat
        } else {
            0nat
        },
{
    assert(cells.update(cells.len() - 1, cell).drop_last() =~= cells.drop_last());
}

/// The belt after a tick: every cell has moved one place towards the output
/// end, and an empty cell stands at the input end.
pub open spec fn belt_after_tick(belt: Seq<Option<ResourceID>>) -> Seq<Option<ResourceID>> {
    belt.drop_first().push(None)
}

/// The arrived items after a tick: the item of the cell that reached the
/// output end, if it held one, has joined them.
pub open spec fn waiting_after_tick(belt: Seq<Option<ResourceID>>, waiting: Seq<ResourceID>) -> Seq<ResourceID> {
    match belt[0] {
        Some(resource) => waiting.push(resource),
        None => waiting,
    }
}

/// The belt after `ticks` ticks in which nothing enters.
pub open spec fn belt_after_ticks(belt: Seq<Option<ResourceID>>, ticks: nat) -> Seq<Option<ResourceID>>
    decreases ticks,
{
    if ticks == 0 {
        belt
    } else {
        belt_after_tick(belt_after_ticks(belt, (ticks - 1) as nat))
    }
}

/// A cell moves one place towards the output end with every tick: what
/// stands at place `k` stands at place `k - ticks` after `ticks` ticks, as
/// long as that is on the belt.
pub proof fn lemma_belt_moves(belt: Seq<Option<ResourceID>>, k: int, ticks: nat)
    requires
        0 <= k < belt.len(),
        ticks <= k,
    ensures
        belt_after_ticks(belt, ticks).len() == belt.len(),
        belt_after_ticks(belt, ticks)[k - ticks] == belt[k],
    decreases ticks,
{
    if ticks > 0 {
        lemma_belt_moves(belt, k, (ticks - 1) as nat);
    }
}

/// The transit time is the length of the belt: an item in the cell at the
/// input end is still on the belt after every number of ticks below the
/// length, and the tick that makes up the length hands it to the arrived
/// items.
pub proof fn lemma_belt_transit_time(belt: Seq<Option<ResourceID>>, waiting: Seq<ResourceID>, resource: ResourceID)
    requires
        belt.len() > 0,
        belt.last() == Some(resource),
    ensures
        forall|ticks: nat|
            ticks < belt.len() ==> (#[trigger] belt_after_ticks(belt, ticks))[belt.len() - 1 - ticks] == Some(
                resource,
            ),
        waiting_after_tick(belt_after_ticks(belt, (belt.len() - 1) as nat), waiting) == waiting.push(resource),
{
    assert forall|ticks: nat| ticks < belt.len() implies (#[trigger] belt_after_ticks(belt, ticks))[belt.len() - 1
        - ticks] == Some(resource) by {
        lemma_belt_moves(belt, belt.len() - 1, ticks);
    }
    lemma_belt_moves(belt, belt.len() - 1, (belt.len() - 1) as nat);
}

/// The index after `value` in a ring of `max` slots.
fn wrap_inc(value: u16, max: u16) -> (next: u16)
    requires
        value < max,
    ensures
        next == if value + 1 == max { 0 } else { value + 1 },
{
    if value + 1 >= max {
        0
    } else {
        value + 1
    }
}

/// Refuses a connection whose two ends are the same port of the same
/// machine.
pub fn connection_port_check(recv: &ConnectionRecvPort, send: &ConnectionSendPort) -> (checked: Result<
    (),
    InvalidTopology,
>)
    ensures
        checked is Err <==> recv.0 == send.0 && recv.1 == send.1,
        checked matches Err(why) ==> why == InvalidTopology::SelfLoop,
{
    if recv.0 == send.0 && recv.1 == send.1 {
        Err(InvalidTopology::SelfLoop)
    } else {
        Ok(())
    }
}

impl ConnectionBundle {
    /// Number of cells of the belt, which is also the transit time in ticks
    /// and the most items the connection holds.
    pub closed spec fn length(&self) -> nat {
        self.recv_body.0@.len()
    }

    /// Where the `k`-th cell from the output end lies in the belt's ring.
    closed spec fn cell(&self, k: int) -> int {
        if self.recv_head.0 + k < self.recv_body.0@.len() {
            self.recv_head.0 + k
        } else {
            self.recv_head.0 + k - self.recv_body.0@.len()
        }
    }

    /// The cells of the belt from the output end to the input end: the cell
    /// at `k` reaches the output end with the tick that follows `k` others.
    pub closed spec fn belt(&self) -> Seq<Option<ResourceID>> {
        Seq::new(self.recv_body.0@.len(), |k: int| self.recv_body.0@[self.cell(k)])
    }

    /// Number of arrived items.
    closed spec fn arrived(&self) -> nat {
        let length = self.send_body.0@.len();
        if self.send_head.0 == self.send_tail.0 {
            if self.send_body.0@[self.send_head.0 as int] is Some {
                length
            } else {
                0
            }
        } else if self.send_head.0 < self.send_tail.0 {
            (self.send_tail.0 - self.send_head.0) as nat
        } else {
            (length + self.send_tail.0 - self.send_head.0) as nat
        }
    }

    /// Whether place `i` of the ring of arrived items is taken.
    closed spec fn taken(&self, i: int) -> bool {
        if self.send_head.0 == self.send_tail.0 {
            self.send_body.0@[self.send_head.0 as int] is Some
        } else if self.send_head.0 < self.send_tail.0 {
            self.send_head.0 <= i < self.send_tail.0
        } else {
            self.send_head.0 <= i || i < self.send_tail.0
        }
    }

    /// Where the `k`-th oldest arrived item lies in its ring.
    closed spec fn place(&self, k: int) -> int {
        if self.send_head.0 + k < self.send_body.0@.len() {
            self.send_head.0 + k
        } else {
            self.send_head.0 + k - self.send_body.0@.len()
        }
    }

    /// The items that have arrived and wait to be delivered, oldest first.
    pub closed spec fn waiting(&self) -> Seq<ResourceID> {
        Seq::new(self.arrived(), |k: int| self.send_body.0@[self.place(k)]->0)
    }

    /// Number of items in the connection, on the belt and arrived together.
    pub open spec fn in_flight(&self) -> nat {
        occupied(self.belt()) + self.waiting().len()
    }

    /// The representation invariant: the two rings have the length of the
    /// connection, the indices stay inside them, the counter counts the
    /// items, and there are never more items than cells.
    pub closed spec fn wf(&self) -> bool {
        let length = self.recv_body.0@.len();
        &&& 0 < length <= u16::MAX
        &&& self.send_body.0@.len() == length
        &&& self.recv_head.0 < length
        &&& self.recv_tail.0 == if self.recv_head.0 == 0 { length - 1 } else { self.recv_head.0 - 1 }
        &&& self.send_head.0 < length
        &&& self.send_tail.0 < length
        &&& forall|i: int| 0 <= i < length ==> (#[trigger] self.send_body.0@[i] is Some) == self.taken(i)
        &&& self.packet_counter.0 == occupied(self.belt()) + self.arrived()
        &&& self.packet_counter.0 <= length
    }

    /// A well-formed connection never holds more items than it has cells.
    pub proof fn lemma_bounded(&self)
        requires
            self.wf(),
        ensures
            self.in_flight() <= self.length(),
            self.belt().len() == self.length(),
            0 < self.length() <= u16::MAX,
    {
    }

    /// An empty connection of `length` cells, of which there must be at least
    /// one.
    pub fn new(length: ConnectionDuration) -> (connection: Self)
        requires
            length > 0,
        ensures
            connection.wf(),
            connection.length() == length,
            connection.belt() == Seq::new(length as nat, |k: int| None::<ResourceID>),
            connection.waiting() == Seq::<ResourceID>::empty(),
            connection.in_flight() == 0,
    {
        let mut recv: Vec<Option<ResourceID>> = Vec::new();
        let mut send: Vec<Option<ResourceID>> = Vec::new();
        let mut made: u16 = 0;
        while made < length
            invariant
                made <= length,
                recv@.len() == made,
                send@.len() == made,
                forall|i: int| 0 <= i < made ==> #[trigger] recv@[i] is None,
                forall|i: int| 0 <= i < made ==> #[trigger] send@[i] is None,
            decreases length - made,
        {
            recv.push(None);
            send.push(None);
            made += 1;
        }
        let connection = Self {
            packet_counter: ConnectionPacketCounter(0),
            recv_head: ConnectionRecvHead(0),
            recv_tail: ConnectionRecvTail(length - 1),
            recv_body: ConnectionRecvBody(recv),
            send_head: ConnectionSendHead(0),
            send_tail: ConnectionSendTail(0),
            send_body: ConnectionSendBody(send),
        };
        proof {
            assert(connection.belt() =~= Seq::new(length as nat, |k: int| None::<ResourceID>));
            lemma_occupied_empty(connection.belt());
        }
        connection
    }
}

/// A belt of empty cells carries nothing.
pub proof fn lemma_occupied_empty(cells: Seq<Option<ResourceID>>)
    requires
        forall|i: int| 0 <= i < cells.len() ==> #[trigger] cells[i] is None,
    ensures
        occupied(cells) == 0,
    decreases cells.len(),
{
    if cells.len() > 0 {
        lemma_occupied_empty(cells.drop_last());
    }
}

/// The belt moves by one cell: the item of the cell that reaches the output
/// end, if it holds one, joins the arrived items, and an empty cell comes to
/// stand at the input end.
pub fn connection_tick(connection: &mut ConnectionBundle)
    requires
        old(connection).wf(),
    ensures
        final(connection).wf(),
        final(connection).length() == old(connection).length(),
        final(connection).belt() == belt_after_tick(old(connection).belt()),
        final(connection).waiting() == waiting_after_tick(old(connection).belt(), old(connection).waiting()),
        final(connection).in_flight() == old(connection).in_flight(),
{
    let connection_len = connection.recv_body.0.len() as u16;
    let head = connection.recv_head.0;
    let ghost before = *connection;
    proof {
        lemma_occupied_drop_first(before.belt());
        assert(before.belt()[0] == before.recv_body.0@[head as int]);
    }
    if let Some(recv) = connection.recv_body.0[head as usize] {
        let tail = connection.send_tail.0;
        proof {
            if before.arrived() == connection_len {
                assert(before.taken(head as int));
            }
            assert(!before.taken(tail as int));
        }
        connection.send_body.0.set(tail as usize, Some(recv));
        connection.send_tail.0 = wrap_inc(tail, connection_len);
        connection.recv_body.0.set(head as usize, None);
    }
    connection.recv_tail.0 = head;
    connection.recv_head.0 = wrap_inc(head, connection_len);
    proof {
        assert(connection.belt() =~= belt_after_tick(before.belt()));
        assert(before.belt().drop_first().push(None).drop_last() =~= before.belt().drop_first());
        assert(connection.waiting() =~= waiting_after_tick(before.belt(), before.waiting()));
    }
}

/// Whether the receive phase moves a unit: there is room for an item, the
/// cell at the input end is free, and the port holds something.
pub open spec fn receives(connection: ConnectionBundle, port: Port) -> bool {
    &&& connection.in_flight() < connection.length()
    &&& connection.belt().last() is None
    &&& port@ is Some
}

/// Receive phase: when there is room, the cell at the input end is free and
/// the port holds something, one unit leaves the port and enters that cell.
/// Otherwise nothing changes.
pub fn connection_recv(connection: &mut ConnectionBundle, port: &mut Port)
    requires
        old(connection).wf(),
    ensures
        final(connection).wf(),
        final(connection).length() == old(connection).length(),
        final(connection).waiting() == old(connection).waiting(),
        final(port).limit() == old(port).limit(),
        receives(*old(connection), *old(port)) ==> {
            let (resource, stored) = old(port)@->0;
            &&& final(connection).belt() == old(connection).belt().update(
                old(connection).length() - 1,
                Some(resource),
            )
            &&& final(connection).in_flight() == old(connection).in_flight() + 1
            &&& final(port)@ == ResourceStore::holding(resource, (stored - 1) as u16)
        },
        final(connection).in_flight() + final(port).units() == old(connection).in_flight() + old(port).units(),
        !receives(*old(connection), *old(port)) ==> {
            &&& *final(connection) == *old(connection)
            &&& *final(port) == *old(port)
        },
{
    let length = connection.recv_body.0.len();
    if connection.packet_counter.0 as usize >= length {
        return ;
    }
    let tail = connection.recv_tail.0 as usize;
    assert(connection.belt().last() == connection.recv_body.0@[tail as int]);
    if connection.recv_body.0[tail].is_some() {
        return ;
    }
    proof {
        port.lemma_occupied();
    }
    if let Some((resource, _)) = port.recv(1) {
        let ghost before = *connection;
        port.pop(1);
        connection.recv_body.0.set(tail, Some(resource));
        connection.packet_counter.0 += 1;
        proof {
            assert(connection.belt() =~= before.belt().update(before.length() - 1, Some(resource)));
            lemma_occupied_last(before.belt(), Some(resource));
            assert(connection.waiting() =~= before.waiting());
        }
    }
}

/// Whether the send phase moves a unit: an item has arrived, and the port is
/// empty or holds its resource, with room for one more unit.
pub open spec fn delivers(connection: ConnectionBundle, port: Port) -> bool {
    &&& connection.waiting().len() > 0
    &&& ResourceStore::compatible(port@, connection.waiting()[0])
    &&& port.room() > 0
}

/// Send phase: when an item has arrived and the port can take it, the oldest
/// arrived item leaves the connection and the port gains one unit. A port
/// that holds another resource, or that has no room, takes nothing, and then
/// nothing changes.
pub fn connection_send(connection: &mut ConnectionBundle, port: &mut Port)
    requires
        old(connection).wf(),
    ensures
        final(connection).wf(),
        final(connection).length() == old(connection).length(),
        final(connection).belt() == old(connection).belt(),
        final(port).limit() == old(port).limit(),
        delivers(*old(connection), *old(port)) ==> {
            &&& final(connection).waiting() == old(connection).waiting().drop_first()
            &&& final(connection).in_flight() == old(connection).in_flight() - 1
            &&& final(port)@ == Some((old(connection).waiting()[0], (old(port).units() + 1) as u16))
        },
        final(connection).in_flight() + final(port).units() == old(connection).in_flight() + old(port).units(),
        !delivers(*old(connection), *old(port)) ==> {
            &&& *final(connection) == *old(connection)
            &&& *final(port) == *old(port)
        },
{
    let head = connection.send_head.0;
    let ghost before = *connection;
    assert(before.taken(head as int) == (before.arrived() > 0));
    if let Some(send) = connection.send_body.0[head as usize] {
        if port.remaining() == 0 || !port.accepts(send) {
            return ;
        }
        let sent = port.send(send, 1);
        assert(sent == Ok::<u16, ResourceID>(1u16));
        let len = connection.send_body.0.len() as u16;
        connection.send_body.0.set(head as usize, None);
        connection.send_head.0 = wrap_inc(head, len);
        connection.packet_counter.0 -= 1;
        proof {
            assert(connection.belt() =~= before.belt());
            assert(connection.waiting() =~= before.waiting().drop_first());
        }
    }
}

} // verus!
