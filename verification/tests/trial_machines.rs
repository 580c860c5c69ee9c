use astro_core::dev::{
    update_numbered_passthrough_machine, update_numbered_unlimited_source, update_passthrough_machine,
    update_unlimited_source,
};
use astro_core::machine::ports::Ports as NumberedPorts;
use astro_core::machine::connection::ConnectionQueue;
use astro_core::machine::connection_checked::Connection;
use astro_core::machine::connection_long::ConnectionLong;
use astro_core::machine::connection_short::ConnectionShort;
use astro_core::machine::connection_u16::ConnectionU16;
use astro_core::machine::connection_u32::ConnectionU32;
use astro_core::machine::connection_u4::ConnectionU4;
use astro_core::resources::pipe::simple::PipeSimple;
use astro_core::resources::ports::{PortID, Ports};
use astro_core::resources::resource::{ResourceID, ResourceUUID};

fn id(value: u16) -> ResourceID {
    ResourceID::try_from_inner(value).unwrap()
}

#[test]
fn passthrough_moves_one_unit_from_a_to_b() {
    let mut ports = Ports::default();
    ports.get_mut(PortID::A).set(id(1), 2);
    ports.get_mut(PortID::C).set(id(7), 7);
    update_passthrough_machine(&mut ports);
    assert_eq!(ports.get(PortID::A).get(), Some((id(1), 1)));
    assert_eq!(ports.get(PortID::B).get(), Some((id(1), 1)));
    update_passthrough_machine(&mut ports);
    assert_eq!(ports.get(PortID::A).get(), None);
    assert_eq!(ports.get(PortID::B).get(), Some((id(1), 2)));
    update_passthrough_machine(&mut ports);
    assert_eq!(ports.get(PortID::A).get(), None);
    assert_eq!(ports.get(PortID::B).get(), Some((id(1), 2)));
    assert_eq!(ports.get(PortID::C).get(), Some((id(7), 7)));
    assert_eq!(ports.get(PortID::D).get(), None);
}

#[test]
fn passthrough_waits_at_another_resource_or_a_full_port() {
    let mut ports = Ports::default();
    ports.get_mut(PortID::A).set(id(1), 2);
    ports.get_mut(PortID::B).set(id(2), 1);
    update_passthrough_machine(&mut ports);
    assert_eq!(ports.get(PortID::A).get(), Some((id(1), 2)));
    assert_eq!(ports.get(PortID::B).get(), Some((id(2), 1)));
    ports.get_mut(PortID::B).set(id(1), u16::MAX);
    update_passthrough_machine(&mut ports);
    assert_eq!(ports.get(PortID::A).get(), Some((id(1), 2)));
    assert_eq!(ports.get(PortID::B).get(), Some((id(1), u16::MAX)));
    ports.get_mut(PortID::B).set(id(1), u16::MAX - 1);
    update_passthrough_machine(&mut ports);
    assert_eq!(ports.get(PortID::A).get(), Some((id(1), 1)));
    assert_eq!(ports.get(PortID::B).get(), Some((id(1), u16::MAX)));
}

#[test]
fn unlimited_source_offers_one_unit_and_swallows_the_rest() {
    let mut ports = Ports::default();
    ports.get_mut(PortID::A).set(id(4), 9);
    ports.get_mut(PortID::D).set(id(5), 3);
    update_unlimited_source(id(2), &mut ports);
    assert_eq!(ports.get(PortID::A).get(), None);
    assert_eq!(ports.get(PortID::B).get(), Some((id(2), 1)));
    assert_eq!(ports.get(PortID::D).get(), Some((id(5), 3)));
    ports.get_mut(PortID::B).clear();
    update_unlimited_source(id(2), &mut ports);
    assert_eq!(ports.get(PortID::B).get(), Some((id(2), 1)));
}

#[test]
fn every_queue_knows_its_length() {
    assert_eq!(PipeSimple::new(70_000).capacity(), 70_000);
    assert_eq!(ConnectionU32::new(70_000).duration(), 70_000);
    assert_eq!(ConnectionU16::new(700).duration(), 700);
    assert_eq!(ConnectionLong::new(65_535).duration(), 65_535);
    assert_eq!(Connection::new(9).duration(), 9);
    assert_eq!(ConnectionU4::new(16).duration(), 16);
    assert_eq!(ConnectionShort::new(15).duration(), 15);
    assert_eq!(ConnectionShort::new(0).duration(), 0);
}

#[test]
fn resource_name_is_kept() {
    let name = ResourceUUID::new("COPPER");
    assert_eq!(name.as_str(), "COPPER");
    let copy = name;
    assert_eq!(copy.as_str(), name.as_str());
}

#[test]
fn connection_u4_stamped_before_its_clock_leaves_no_earlier_than_the_clock() {
    let mut queue = ConnectionU4::new(4);
    queue.enqueue_unchecked(50, id(1));
    queue.consume_unchecked();
    queue.enqueue_unchecked(10, id(2));
    assert!(!queue.is_ready_to_consume(50));
    assert!(queue.is_ready_to_consume(51));
    assert_eq!(queue.resolve(51), vec![Some(id(2)), None, None, None]);
    assert_eq!(queue.resolve(50), vec![Some(id(2)), None, None, None]);
    queue.consume_unchecked();
    queue.enqueue_unchecked(49, id(3));
    assert!(!queue.is_ready_to_consume(52));
    assert!(queue.is_ready_to_consume(53));
    assert_eq!(queue.resolve(51), vec![None, Some(id(3)), None, None]);
}

#[test]
fn connection_u4_shows_waiting_items_queued_up() {
    let mut queue = ConnectionU4::new(4);
    queue.enqueue_unchecked(0, id(1));
    queue.enqueue_unchecked(1, id(2));
    queue.enqueue_unchecked(2, id(3));
    assert_eq!(queue.resolve(3), vec![Some(id(1)), Some(id(2)), Some(id(3)), None]);
    assert_eq!(queue.resolve(9), vec![Some(id(1)), Some(id(2)), Some(id(3)), None]);
    queue.enqueue_unchecked(9, id(4));
    assert_eq!(queue.resolve(10), vec![Some(id(1)), Some(id(2)), Some(id(3)), Some(id(4))]);
    queue.consume_unchecked();
    assert_eq!(queue.resolve(10), vec![Some(id(2)), Some(id(3)), Some(id(4)), None]);
    assert_eq!(queue.resolve(11), vec![Some(id(2)), Some(id(3)), Some(id(4)), None]);
    assert_eq!(queue.resolve(12), vec![Some(id(2)), Some(id(3)), Some(id(4)), None]);
}

#[test]
fn connection_short_draws_by_the_low_four_bits() {
    let mut queue = ConnectionShort::new(4);
    queue.enqueue_unchecked(32, id(1));
    assert_eq!(queue.resolve(32), vec![None, None, None, Some(id(1))]);
    assert_eq!(queue.resolve(33), vec![None, None, Some(id(1)), None]);
    assert_eq!(queue.resolve(35), vec![Some(id(1)), None, None, None]);
    assert_eq!(queue.resolve(36), vec![Some(id(1)), None, None, None]);
    assert_eq!(queue.resolve(47), vec![Some(id(1)), None, None, None]);
    assert_eq!(queue.resolve(48), vec![None, None, None, Some(id(1))]);
    queue.enqueue_unchecked(33, id(2));
    assert_eq!(queue.resolve(34), vec![None, Some(id(1)), Some(id(2)), None]);
    assert_eq!(queue.resolve(40), vec![Some(id(1)), Some(id(2)), None, None]);
}

#[test]
fn numbered_passthrough_moves_one_unit_within_the_capacity() {
    let mut ports = NumberedPorts::new(3);
    ports.get_mut(0).unwrap().send(id(1), 3).unwrap();
    ports.get_mut(1).unwrap().capacity = 2;
    ports.get_mut(2).unwrap().send(id(7), 7).unwrap();
    update_numbered_passthrough_machine(&mut ports);
    assert_eq!(ports.get(0).unwrap().stored(), 2);
    assert_eq!(ports.get(1).unwrap().stored(), 1);
    assert_eq!(ports.get(1).unwrap().resource(), Some(id(1)));
    update_numbered_passthrough_machine(&mut ports);
    update_numbered_passthrough_machine(&mut ports);
    assert_eq!(ports.get(0).unwrap().stored(), 1);
    assert_eq!(ports.get(1).unwrap().stored(), 2);
    assert_eq!(ports.get(1).unwrap().capacity, 2);
    assert_eq!(ports.get(2).unwrap().stored(), 7);
    ports.get_mut(1).unwrap().pop(2);
    ports.get_mut(1).unwrap().send(id(5), 1).unwrap();
    update_numbered_passthrough_machine(&mut ports);
    assert_eq!(ports.get(0).unwrap().stored(), 1);
    assert_eq!(ports.get(1).unwrap().resource(), Some(id(5)));
    ports.get_mut(1).unwrap().pop(1);
    update_numbered_passthrough_machine(&mut ports);
    assert_eq!(ports.get(0).unwrap().resource(), None);
    assert_eq!(ports.get(1).unwrap().resource(), Some(id(1)));
    update_numbered_passthrough_machine(&mut ports);
    assert_eq!(ports.get(1).unwrap().stored(), 1);
    let mut single = NumberedPorts::new(1);
    single.get_mut(0).unwrap().send(id(1), 3).unwrap();
    update_numbered_passthrough_machine(&mut single);
    assert_eq!(single.get(0).unwrap().stored(), 3);
}

#[test]
fn numbered_unlimited_source_offers_one_unit() {
    let mut ports = NumberedPorts::new(3);
    ports.get_mut(0).unwrap().send(id(4), 9).unwrap();
    ports.get_mut(1).unwrap().send(id(5), 3).unwrap();
    ports.get_mut(2).unwrap().send(id(6), 6).unwrap();
    update_numbered_unlimited_source(id(2), &mut ports);
    assert_eq!(ports.get(0).unwrap().resource(), None);
    assert_eq!(ports.get(1).unwrap().resource(), Some(id(2)));
    assert_eq!(ports.get(1).unwrap().stored(), 1);
    assert_eq!(ports.get(2).unwrap().stored(), 6);
    ports.get_mut(1).unwrap().capacity = 0;
    update_numbered_unlimited_source(id(2), &mut ports);
    assert_eq!(ports.get(1).unwrap().stored(), 0);
    let mut none = NumberedPorts::new(0);
    update_numbered_unlimited_source(id(2), &mut none);
    assert_eq!(none.count(), 0);
}
