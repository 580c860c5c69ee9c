use astro_core::machine::connection_fast::{
    connection_port_check, connection_recv, connection_send, connection_tick, ConnectionBundle,
    ConnectionRecvPort, ConnectionSendPort,
};
use astro_core::machine::ports::Port;
use astro_core::resources::pipe::InvalidTopology;
use astro_core::resources::ports::{EntityId, PortID};
use astro_core::resources::resource::ResourceID;

fn id(value: u16) -> ResourceID {
    ResourceID::try_from_inner(value).unwrap()
}

#[test]
fn belt_refuses_a_self_loop() {
    let recv = ConnectionRecvPort(EntityId(1), PortID::A);
    assert_eq!(
        connection_port_check(&recv, &ConnectionSendPort(EntityId(1), PortID::A)),
        Err(InvalidTopology::SelfLoop)
    );
    assert_eq!(connection_port_check(&recv, &ConnectionSendPort(EntityId(1), PortID::B)), Ok(()));
    assert_eq!(connection_port_check(&recv, &ConnectionSendPort(EntityId(2), PortID::A)), Ok(()));
}

#[test]
fn belt_item_arrives_after_its_length_in_ticks() {
    let mut belt = ConnectionBundle::new(4);
    let mut source = Port::default();
    let mut destination = Port::default();
    source.send(id(3), 1).unwrap();
    connection_recv(&mut belt, &mut source);
    assert_eq!(source.stored(), 0);
    for _ in 0..3 {
        connection_tick(&mut belt);
        connection_send(&mut belt, &mut destination);
        assert_eq!(destination.stored(), 0);
    }
    connection_tick(&mut belt);
    connection_send(&mut belt, &mut destination);
    assert_eq!(destination.recv(9), Some((id(3), 1)));
}

#[test]
fn belt_takes_one_item_per_tick() {
    let mut belt = ConnectionBundle::new(3);
    let mut source = Port::default();
    source.send(id(3), 5).unwrap();
    connection_recv(&mut belt, &mut source);
    connection_recv(&mut belt, &mut source);
    assert_eq!(source.stored(), 4);
    connection_tick(&mut belt);
    connection_recv(&mut belt, &mut source);
    assert_eq!(source.stored(), 3);
}

#[test]
fn belt_never_holds_more_items_than_cells() {
    let mut belt = ConnectionBundle::new(3);
    let mut source = Port::default();
    let mut blocked = Port::with_capacity(0);
    source.send(id(3), 20).unwrap();
    for _ in 0..12 {
        connection_tick(&mut belt);
        connection_send(&mut belt, &mut blocked);
        connection_recv(&mut belt, &mut source);
    }
    assert_eq!(source.stored(), 17);
    assert_eq!(blocked.stored(), 0);
    let mut destination = Port::default();
    for _ in 0..3 {
        connection_send(&mut belt, &mut destination);
    }
    assert_eq!(destination.stored(), 3);
    connection_send(&mut belt, &mut destination);
    assert_eq!(destination.stored(), 3);
}

#[test]
fn belt_keeps_the_order_and_the_counts() {
    let mut belt = ConnectionBundle::new(2);
    let mut source = Port::default();
    let mut destination = Port::default();
    let mut delivered = Vec::new();
    for tick in 0..12u16 {
        connection_tick(&mut belt);
        connection_send(&mut belt, &mut destination);
        if let Some((resource, count)) = destination.recv(1) {
            delivered.push(resource.into_inner());
            destination.pop(count);
        }
        if tick < 6 {
            source.send(id(1 + tick), 1).unwrap();
        }
        connection_recv(&mut belt, &mut source);
        assert_eq!(source.stored(), 0);
    }
    assert_eq!(delivered, vec![1, 2, 3, 4, 5, 6]);
}

#[test]
fn belt_send_phase_stalls_at_another_resource() {
    let mut belt = ConnectionBundle::new(1);
    let mut source = Port::default();
    let mut destination = Port::default();
    destination.send(id(9), 5).unwrap();
    source.send(id(3), 1).unwrap();
    connection_recv(&mut belt, &mut source);
    for _ in 0..4 {
        connection_tick(&mut belt);
        connection_send(&mut belt, &mut destination);
        assert_eq!(destination.recv(9), Some((id(9), 5)));
    }
    source.send(id(3), 1).unwrap();
    connection_recv(&mut belt, &mut source);
    assert_eq!(source.stored(), 1);
    destination.pop(5);
    connection_send(&mut belt, &mut destination);
    assert_eq!(destination.recv(9), Some((id(3), 1)));
    connection_recv(&mut belt, &mut source);
    assert_eq!(source.stored(), 0);
}
