use astro_core::resources::pipe::simple::{PacketBuffer, PipeSimple};
use astro_core::resources::pipe::{
    connection_send_recv, connection_send_recv_within, connection_tick, do_connection_recv,
    do_connection_send, spawn_pipe, InvalidTopology, Pipe,
};
use astro_core::resources::ports::{EntityId, PortID, PortRecv, PortSend, Ports};
use astro_core::resources::resource::ResourceID;
use astro_core::tick::{update_tick, FactoryTick};

fn id(value: u16) -> ResourceID {
    ResourceID::try_from_inner(value).unwrap()
}

#[test]
fn tick_clock_advances_by_one() {
    let mut tick = FactoryTick(0);
    update_tick(&mut tick);
    assert_eq!(tick, FactoryTick(1));
    update_tick(&mut tick);
    update_tick(&mut tick);
    assert_eq!(tick.0, 3);
}

#[test]
fn packet_buffer_starts_empty() {
    let buffer = PacketBuffer::new(3);
    assert_eq!(buffer.capacity(), 3);
    assert_eq!(buffer.len(), 0);
    assert!(buffer.is_empty());
    assert!(!buffer.is_full());
    assert_eq!(buffer.peek_front(), None);
    assert_eq!(buffer.peek_back(), None);
    assert_eq!(buffer.get(0), None);
}

#[test]
fn packet_buffer_of_no_capacity_is_empty_and_full() {
    let buffer = PacketBuffer::new(0);
    assert_eq!(buffer.capacity(), 0);
    assert_eq!(buffer.len(), 0);
    assert!(buffer.is_empty());
    assert!(buffer.is_full());
    assert_eq!(buffer.peek_front(), None);
    assert_eq!(buffer.get(0), None);
}

#[test]
fn packet_buffer_is_first_in_first_out() {
    let mut buffer = PacketBuffer::new(3);
    buffer.push(10, id(1));
    buffer.push(11, id(2));
    buffer.push(12, id(3));
    assert!(buffer.is_full());
    assert_eq!(buffer.len(), 3);
    assert_eq!(buffer.peek_front(), Some((10, id(1))));
    assert_eq!(buffer.peek_back(), Some((12, id(3))));
    assert_eq!(buffer.get(0), Some((10, id(1))));
    assert_eq!(buffer.get(1), Some((11, id(2))));
    assert_eq!(buffer.get(2), Some((12, id(3))));
    assert_eq!(buffer.get(3), None);
    buffer.pop();
    assert_eq!(buffer.peek_front(), Some((11, id(2))));
    assert_eq!(buffer.len(), 2);
    buffer.pop();
    assert_eq!(buffer.peek_front(), Some((12, id(3))));
    buffer.pop();
    assert!(buffer.is_empty());
    assert_eq!(buffer.peek_front(), None);
}

#[test]
fn packet_buffer_wraps_around() {
    let mut buffer = PacketBuffer::new(3);
    for round in 0..10u32 {
        buffer.push(round, id(1 + round as u16));
        buffer.push(round + 100, id(101 + round as u16));
        assert_eq!(buffer.len(), 2);
        assert_eq!(buffer.peek_front(), Some((round, id(1 + round as u16))));
        assert_eq!(buffer.peek_back(), Some((round + 100, id(101 + round as u16))));
        assert_eq!(buffer.get(1), Some((round + 100, id(101 + round as u16))));
        buffer.pop();
        assert_eq!(buffer.peek_front(), Some((round + 100, id(101 + round as u16))));
        buffer.pop();
        assert!(buffer.is_empty());
    }
}

#[test]
fn packet_buffer_of_one_slot() {
    let mut buffer = PacketBuffer::new(1);
    buffer.push(5, id(9));
    assert!(buffer.is_full());
    assert!(!buffer.is_empty());
    assert_eq!(buffer.len(), 1);
    assert_eq!(buffer.peek_back(), Some((5, id(9))));
    buffer.pop();
    assert!(buffer.is_empty());
    assert!(!buffer.is_full());
    buffer.push(6, id(8));
    assert_eq!(buffer.peek_front(), Some((6, id(8))));
}

#[test]
fn pipe_items_leave_in_the_order_they_entered() {
    let mut pipe = PipeSimple::new(5);
    for (tick, resource) in [(1, 7), (1, 3), (2, 9), (5, 3), (5, 1)] {
        pipe.enqueue_unchecked(tick, id(resource));
    }
    assert!(pipe.is_full());
    for resource in [7, 3, 9, 3, 1] {
        assert_eq!(pipe.get_unchecked(), id(resource));
        pipe.consume_unchecked();
    }
    assert!(pipe.is_empty());
}

#[test]
fn pipe_is_full_exactly_at_capacity() {
    let mut pipe = PipeSimple::new(3);
    assert!(pipe.is_empty());
    assert!(!pipe.is_full());
    pipe.enqueue_unchecked(0, id(1));
    assert!(!pipe.is_empty());
    assert!(!pipe.is_full());
    pipe.enqueue_unchecked(1, id(1));
    assert!(!pipe.is_full());
    pipe.enqueue_unchecked(2, id(1));
    assert!(pipe.is_full());
    pipe.consume_unchecked();
    assert!(!pipe.is_full());
}

#[test]
fn pipe_transit_time_is_its_length() {
    let mut pipe = PipeSimple::new(4);
    assert!(!pipe.is_ready_to_consume(100));
    pipe.enqueue_unchecked(10, id(2));
    assert!(!pipe.is_ready_to_consume(0));
    assert!(!pipe.is_ready_to_consume(10));
    assert!(!pipe.is_ready_to_consume(13));
    assert!(pipe.is_ready_to_consume(14));
    assert!(pipe.is_ready_to_consume(15));
    assert!(pipe.is_ready_to_consume(u32::MAX));
}

#[test]
fn pipe_transit_time_near_the_end_of_the_clock() {
    let mut pipe = PipeSimple::new(4);
    pipe.enqueue_unchecked(u32::MAX - 2, id(2));
    assert!(!pipe.is_ready_to_consume(u32::MAX));
    let mut pipe = PipeSimple::new(4);
    pipe.enqueue_unchecked(u32::MAX - 4, id(2));
    assert!(!pipe.is_ready_to_consume(u32::MAX - 1));
    assert!(pipe.is_ready_to_consume(u32::MAX));
}

#[test]
fn pipe_positions_follow_the_ticks() {
    let mut pipe = PipeSimple::new(4);
    pipe.enqueue_unchecked(10, id(1));
    pipe.enqueue_unchecked(11, id(2));
    pipe.enqueue_unchecked(12, id(3));
    assert_eq!(pipe.get_packet_position(12, 0), 2);
    assert_eq!(pipe.get_packet_position(12, 1), 1);
    assert_eq!(pipe.get_packet_position(12, 2), 0);
    assert_eq!(pipe.get_packet_position(20, 0), 3);
    assert_eq!(pipe.get_packet_position(20, 1), 2);
    assert_eq!(pipe.get_packet_position(20, 2), 1);
    assert_eq!(pipe.get_packet_position(5, 0), 0);
}

#[test]
fn pipe_resolve_shows_slots_from_the_output_end() {
    let mut pipe = PipeSimple::new(4);
    assert_eq!(pipe.resolve(0), vec![None, None, None, None]);
    pipe.enqueue_unchecked(10, id(1));
    pipe.enqueue_unchecked(11, id(2));
    pipe.enqueue_unchecked(12, id(3));
    assert_eq!(pipe.resolve(12), vec![None, Some(id(1)), Some(id(2)), Some(id(3))]);
    assert_eq!(pipe.resolve(13), vec![Some(id(1)), Some(id(2)), Some(id(3)), None]);
    assert_eq!(pipe.resolve(20), vec![Some(id(1)), Some(id(2)), Some(id(3)), None]);
    assert_eq!(pipe.get_unchecked(), id(1));
    assert!(!pipe.is_full());
}

#[test]
fn pipe_resolve_draws_the_newer_of_two_items_in_one_slot() {
    let mut pipe = PipeSimple::new(4);
    pipe.enqueue_unchecked(10, id(1));
    pipe.enqueue_unchecked(10, id(2));
    assert_eq!(pipe.resolve(10), vec![None, None, None, Some(id(2))]);
    assert_eq!(pipe.resolve(12), vec![None, Some(id(2)), None, None]);
    assert_eq!(pipe.resolve(13), vec![Some(id(1)), Some(id(2)), None, None]);
}

#[test]
fn spawn_pipe_attaches_the_ports() {
    let from = (EntityId(1), PortID::B);
    let to = (EntityId(2), PortID::A);
    let spawned = spawn_pipe(7, Some(to), Some(from)).ok().unwrap();
    assert_eq!(spawned.send, Some(PortSend(EntityId(2), PortID::A)));
    assert_eq!(spawned.recv, Some(PortRecv(EntityId(1), PortID::B)));
    assert!(spawned.pipe.is_empty());
    assert_eq!(spawned.pipe.resolve(0).len(), 7);
    let spawned = spawn_pipe(2, None, Some(from)).ok().unwrap();
    assert_eq!(spawned.send, None);
    assert_eq!(spawned.recv, Some(PortRecv(EntityId(1), PortID::B)));
    let spawned = spawn_pipe(2, None, None).ok().unwrap();
    assert_eq!(spawned.send, None);
    assert_eq!(spawned.recv, None);
}

#[test]
fn spawn_pipe_refuses_a_self_loop() {
    let port = (EntityId(4), PortID::C);
    assert_eq!(spawn_pipe(3, Some(port), Some(port)).err(), Some(InvalidTopology::SelfLoop));
    assert!(spawn_pipe(3, Some((EntityId(4), PortID::A)), Some(port)).is_ok());
    assert!(spawn_pipe(3, Some((EntityId(5), PortID::C)), Some(port)).is_ok());
}

#[test]
fn receive_phase_moves_one_unit_into_the_pipe() {
    let recv = PortRecv(EntityId(1), PortID::B);
    let mut ports = Ports::default();
    ports.get_mut(PortID::B).set(id(3), 2);
    ports.get_mut(PortID::A).set(id(4), 9);
    let mut pipe = PipeSimple::new(4);
    do_connection_recv(5, &mut pipe, &recv, &mut ports);
    assert_eq!(ports.get(PortID::B).get(), Some((id(3), 1)));
    assert_eq!(ports.get(PortID::A).get(), Some((id(4), 9)));
    assert_eq!(pipe.get_unchecked(), id(3));
    assert!(!pipe.is_ready_to_consume(8));
    assert!(pipe.is_ready_to_consume(9));
    do_connection_recv(6, &mut pipe, &recv, &mut ports);
    assert_eq!(ports.get(PortID::B).get(), None);
    do_connection_recv(7, &mut pipe, &recv, &mut ports);
    assert_eq!(ports.get(PortID::B).get(), None);
    assert_eq!(pipe.resolve(7), vec![None, Some(id(3)), Some(id(3)), None]);
}

#[test]
fn send_phase_waits_for_the_transit_time() {
    let send = PortSend(EntityId(2), PortID::A);
    let mut ports = Ports::default();
    let mut pipe = PipeSimple::new(3);
    pipe.enqueue_unchecked(10, id(6));
    do_connection_send(12, &mut pipe, &send, &mut ports);
    assert_eq!(ports.get(PortID::A).get(), None);
    assert!(!pipe.is_empty());
    do_connection_send(13, &mut pipe, &send, &mut ports);
    assert_eq!(ports.get(PortID::A).get(), Some((id(6), 1)));
    assert!(pipe.is_empty());
}

#[test]
fn send_phase_stalls_at_a_port_that_is_filled_to_the_limit() {
    let send = PortSend(EntityId(2), PortID::A);
    let mut ports = Ports::default();
    ports.get_mut(PortID::A).set(id(6), u16::MAX);
    let mut pipe = PipeSimple::new(1);
    pipe.enqueue_unchecked(0, id(6));
    do_connection_send(5, &mut pipe, &send, &mut ports);
    assert_eq!(ports.get(PortID::A).get(), Some((id(6), u16::MAX)));
    assert!(pipe.is_full());
    ports.get_mut(PortID::A).set(id(6), u16::MAX - 1);
    do_connection_send(5, &mut pipe, &send, &mut ports);
    assert_eq!(ports.get(PortID::A).get(), Some((id(6), u16::MAX)));
    assert!(pipe.is_empty());
}

#[test]
fn sending_another_resource_leaves_port_and_pipe_untouched() {
    let send = PortSend(EntityId(2), PortID::A);
    let r = id(1);
    let y = id(2);
    let mut ports = Ports::default();
    ports.get_mut(PortID::A).set(r, 5);
    let mut pipe = PipeSimple::new(2);
    pipe.enqueue_unchecked(0, y);
    pipe.enqueue_unchecked(1, r);
    for tick in 2..10 {
        do_connection_send(tick, &mut pipe, &send, &mut ports);
        assert_eq!(ports.get(PortID::A).get(), Some((r, 5)));
        assert!(pipe.is_full());
        assert_eq!(pipe.get_unchecked(), y);
        assert!(pipe.is_ready_to_consume(tick));
    }
    ports.get_mut(PortID::A).clear();
    do_connection_send(10, &mut pipe, &send, &mut ports);
    assert_eq!(ports.get(PortID::A).get(), Some((y, 1)));
    assert_eq!(pipe.get_unchecked(), r);
}

#[test]
fn pipe_with_a_source_only_fills_up_and_then_refuses() {
    let recv = PortRecv(EntityId(1), PortID::B);
    let mut ports = Ports::default();
    let mut pipe = PipeSimple::new(3);
    for tick in 0..10 {
        ports.get_mut(PortID::B).set(id(7), 1);
        do_connection_recv(tick, &mut pipe, &recv, &mut ports);
        if tick < 3 {
            assert_eq!(ports.get(PortID::B).get(), None);
            assert_eq!(pipe.is_full(), tick == 2);
        } else {
            assert_eq!(ports.get(PortID::B).get(), Some((id(7), 1)));
            assert!(pipe.is_full());
        }
    }
    assert_eq!(pipe.resolve(10), vec![Some(id(7)), Some(id(7)), Some(id(7))]);
    let send = PortSend(EntityId(2), PortID::A);
    let mut sink = Ports::default();
    do_connection_send(10, &mut pipe, &send, &mut sink);
    assert!(!pipe.is_full());
    do_connection_recv(10, &mut pipe, &recv, &mut ports);
    assert!(pipe.is_full());
    assert_eq!(ports.get(PortID::B).get(), None);
}

#[test]
fn steady_supply_through_a_pipe_of_four_slots() {
    let r = id(1);
    let recv = PortRecv(EntityId(1), PortID::B);
    let send = PortSend(EntityId(2), PortID::A);
    let mut source = Ports::default();
    let mut destination = Ports::default();
    let mut pipe = PipeSimple::new(4);
    let mut received = Vec::new();
    for tick in 0..=8 {
        source.get_mut(PortID::B).set(r, 1);
        connection_send_recv(tick, &mut pipe, &recv, &mut source, &send, &mut destination);
        received.push(destination.get(PortID::A).count());
    }
    assert_eq!(received[3], 0);
    assert_eq!(received[4], 1);
    assert_eq!(received, vec![0, 0, 0, 0, 1, 2, 3, 4, 5]);
    assert_eq!(destination.get(PortID::A).get(), Some((r, 5)));
    assert!(pipe.is_full());
}

#[test]
fn one_unit_takes_exactly_the_transit_time() {
    let r = id(1);
    let recv = PortRecv(EntityId(1), PortID::B);
    let send = PortSend(EntityId(2), PortID::A);
    let mut source = Ports::default();
    let mut destination = Ports::default();
    let mut pipe = PipeSimple::new(4);
    let cycles = 3;
    for cycle in 0..cycles {
        source.get_mut(PortID::B).set(r, 1);
        for step in 0..4 {
            let tick = cycle * 4 + step;
            connection_send_recv(tick, &mut pipe, &recv, &mut source, &send, &mut destination);
            assert_eq!(destination.get(PortID::A).count() as u32, cycle);
        }
    }
    connection_send_recv(cycles * 4, &mut pipe, &recv, &mut source, &send, &mut destination);
    assert_eq!(destination.get(PortID::A).get(), Some((r, 3)));
}

#[test]
fn units_are_neither_made_nor_lost() {
    let r = id(1);
    let recv = PortRecv(EntityId(1), PortID::B);
    let send = PortSend(EntityId(2), PortID::A);
    let mut source = Ports::default();
    let mut destination = Ports::default();
    source.get_mut(PortID::B).set(r, 10);
    let mut pipe = PipeSimple::new(3);
    let mut in_flight = 0u16;
    for tick in 0..40 {
        let before = destination.get(PortID::A).count() + source.get(PortID::B).count();
        connection_send_recv(tick, &mut pipe, &recv, &mut source, &send, &mut destination);
        let after = destination.get(PortID::A).count() + source.get(PortID::B).count();
        in_flight = in_flight + before - after;
        assert_eq!(source.get(PortID::B).count() + in_flight + destination.get(PortID::A).count(), 10);
        assert_eq!(in_flight as usize, pipe.resolve(tick).iter().filter(|slot| slot.is_some()).count());
        assert!(in_flight <= 3);
    }
    assert_eq!(source.get(PortID::B).get(), None);
    assert_eq!(destination.get(PortID::A).get(), Some((r, 10)));
    assert!(pipe.is_empty());
}

#[test]
fn a_port_keeps_its_resource_while_it_holds_units() {
    let r = id(1);
    let y = id(2);
    let recv = PortRecv(EntityId(1), PortID::B);
    let send = PortSend(EntityId(2), PortID::A);
    let mut source = Ports::default();
    let mut destination = Ports::default();
    destination.get_mut(PortID::A).set(r, 1);
    let mut pipe = PipeSimple::new(2);
    pipe.enqueue_unchecked(0, r);
    pipe.enqueue_unchecked(0, y);
    source.get_mut(PortID::B).set(y, 3);
    for tick in 1..20 {
        connection_send_recv(tick, &mut pipe, &recv, &mut source, &send, &mut destination);
        assert_eq!(destination.get(PortID::A).get_or(y).0, r);
        assert_eq!(source.get(PortID::B).get_or(y).0, y);
    }
    assert_eq!(destination.get(PortID::A).get(), Some((r, 2)));
    assert_eq!(source.get(PortID::B).get(), Some((y, 2)));
    assert_eq!(pipe.get_unchecked(), y);
}

#[test]
fn a_slot_freed_by_a_delivery_is_taken_in_the_same_tick() {
    let r = id(1);
    let recv = PortRecv(EntityId(1), PortID::B);
    let send = PortSend(EntityId(2), PortID::A);
    let mut source = Ports::default();
    let mut destination = Ports::default();
    let mut pipe = PipeSimple::new(2);
    pipe.enqueue_unchecked(0, r);
    pipe.enqueue_unchecked(1, r);
    source.get_mut(PortID::B).set(r, 1);
    assert!(pipe.is_full());
    connection_send_recv(2, &mut pipe, &recv, &mut source, &send, &mut destination);
    assert_eq!(destination.get(PortID::A).get(), Some((r, 1)));
    assert_eq!(source.get(PortID::B).get(), None);
    assert!(pipe.is_full());
    assert_eq!(pipe.resolve(2), vec![Some(r), Some(r)]);
    assert!(!pipe.is_ready_to_consume(2));
    assert!(pipe.is_ready_to_consume(3));
}

#[test]
fn a_pipe_runs_only_the_phases_whose_ends_are_attached() {
    let r = id(1);
    let recv = PortRecv(EntityId(1), PortID::B);
    let send = PortSend(EntityId(2), PortID::A);
    let mut source = Ports::default();
    let mut destination = Ports::default();
    source.get_mut(PortID::B).set(r, 3);
    let mut pipe = PipeSimple::new(1);
    connection_tick(0, &mut pipe, None, None);
    assert!(pipe.is_empty());
    assert_eq!(source.get(PortID::B).count(), 3);
    connection_tick(1, &mut pipe, None, Some((&send, &mut destination)));
    assert!(pipe.is_empty());
    assert_eq!(destination.get(PortID::A).count(), 0);
    connection_tick(2, &mut pipe, Some((&recv, &mut source)), None);
    assert!(pipe.is_full());
    assert_eq!(source.get(PortID::B).count(), 2);
    connection_tick(3, &mut pipe, Some((&recv, &mut source)), None);
    assert_eq!(source.get(PortID::B).count(), 2);
    connection_tick(3, &mut pipe, None, Some((&send, &mut destination)));
    assert!(pipe.is_empty());
    assert_eq!(destination.get(PortID::A).get(), Some((r, 1)));
    connection_tick(4, &mut pipe, Some((&recv, &mut source)), Some((&send, &mut destination)));
    assert!(pipe.is_full());
    connection_tick(5, &mut pipe, Some((&recv, &mut source)), Some((&send, &mut destination)));
    assert!(pipe.is_full());
    assert_eq!(destination.get(PortID::A).get(), Some((r, 2)));
    assert_eq!(source.get(PortID::B).get(), None);
}

#[test]
fn a_pipe_between_two_ports_of_one_machine() {
    let r = id(1);
    let recv = PortRecv(EntityId(1), PortID::B);
    let send = PortSend(EntityId(1), PortID::D);
    let mut ports = Ports::default();
    ports.get_mut(PortID::B).set(r, 3);
    ports.get_mut(PortID::A).set(id(9), 9);
    let mut pipe = PipeSimple::new(2);
    let mut seen = Vec::new();
    for tick in 0..6 {
        connection_send_recv_within(tick, &mut pipe, &recv, &send, &mut ports);
        seen.push((ports.get(PortID::B).count(), ports.get(PortID::D).count()));
    }
    assert_eq!(seen, vec![(2, 0), (1, 0), (0, 1), (0, 2), (0, 3), (0, 3)]);
    assert_eq!(ports.get(PortID::D).get(), Some((r, 3)));
    assert_eq!(ports.get(PortID::A).get(), Some((id(9), 9)));
    assert_eq!(ports.get(PortID::C).get(), None);
    assert!(pipe.is_empty());
}
