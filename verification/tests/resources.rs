use astro_core::resources::ports::{PortID, Ports, ResourceStore};
use astro_core::resources::resource::{ResourceCounter, ResourceID, ResourceIDExhaustion, ResourceType};

fn id(value: u16) -> ResourceID {
    ResourceID::try_from_inner(value).unwrap()
}

#[test]
fn resource_id_is_never_zero() {
    assert!(ResourceID::try_from_inner(0).is_none());
    assert_eq!(ResourceID::try_from_inner(1).unwrap().into_inner(), 1);
    assert_eq!(ResourceID::try_from_inner(u16::MAX).unwrap().into_inner(), u16::MAX);
    assert_eq!(ResourceID::from_inner_unchecked(7), id(7));
}

#[test]
fn counter_hands_out_dense_identifiers() {
    let mut counter = ResourceCounter::new();
    assert_eq!(counter.allocate().unwrap().into_inner(), 1);
    assert_eq!(counter.allocate().unwrap().into_inner(), 2);
    assert_eq!(counter.allocate().unwrap().into_inner(), 3);
}

#[test]
fn counter_is_exhausted_after_the_last_identifier() {
    let mut counter = ResourceCounter::new();
    let mut last = 0;
    for _ in 0..u16::MAX {
        last = counter.allocate().unwrap().into_inner();
    }
    assert_eq!(last, u16::MAX);
    assert_eq!(counter.allocate(), Err(ResourceIDExhaustion));
    assert_eq!(counter.allocate(), Err(ResourceIDExhaustion));
}

#[test]
fn resource_type_registers_once() {
    let mut counter = ResourceCounter::new();
    let iron = ResourceType::new("IRON");
    let coal = ResourceType::new("COAL");
    let first = iron.id(&mut counter).unwrap();
    assert_eq!(first.into_inner(), 1);
    assert_eq!(iron.id(&mut counter).unwrap(), first);
    let second = coal.id(&mut counter).unwrap();
    assert_eq!(second.into_inner(), 2);
    assert_eq!(iron.id(&mut counter).unwrap(), first);
    assert_eq!(coal.id(&mut counter).unwrap(), second);
    assert_eq!(iron.uuid().as_str(), "IRON");
    assert_eq!(counter.allocate().unwrap().into_inner(), 3);
}

#[test]
fn resource_type_reports_exhaustion() {
    let mut counter = ResourceCounter::new();
    for _ in 0..u16::MAX {
        counter.allocate().unwrap();
    }
    let late = ResourceType::new("LATE");
    assert_eq!(late.id(&mut counter), Err(ResourceIDExhaustion));
}

#[test]
fn store_get_is_none_exactly_when_empty() {
    let mut store = ResourceStore::default();
    assert_eq!(store.get(), None);
    assert_eq!(store.count(), 0);
    store.set(id(3), 5);
    assert_eq!(store.get(), Some((id(3), 5)));
    assert_eq!(store.count(), 5);
    store.set(id(3), 0);
    assert_eq!(store.get(), None);
    store.set(id(4), 2);
    store.clear();
    assert_eq!(store.get(), None);
    assert_eq!(store.count(), 0);
}

#[test]
fn store_get_or_falls_back_when_empty() {
    let mut store = ResourceStore::default();
    assert_eq!(store.get_or(id(9)), (id(9), 0));
    store.set(id(3), 5);
    assert_eq!(store.get_or(id(9)), (id(3), 5));
    store.clear();
    assert_eq!(store.get_or(id(9)), (id(9), 0));
}

#[test]
fn store_try_send_refuses_other_resource() {
    let mut store = ResourceStore::new(id(1), 5);
    assert_eq!(store.try_send(id(2), 3), Err(id(1)));
    assert_eq!(store.get(), Some((id(1), 5)));
    assert_eq!(store.try_send(id(1), 3), Ok(3));
    assert_eq!(store.get(), Some((id(1), 8)));
}

#[test]
fn store_try_send_into_empty_takes_the_resource() {
    let mut store = ResourceStore::default();
    assert_eq!(store.try_send(id(2), 3), Ok(3));
    assert_eq!(store.get(), Some((id(2), 3)));
    store.clear();
    assert_eq!(store.try_send(id(5), 1), Ok(1));
    assert_eq!(store.get(), Some((id(5), 1)));
}

#[test]
fn store_try_send_stops_at_the_limit() {
    let mut store = ResourceStore::new(id(1), u16::MAX - 2);
    assert_eq!(store.try_send(id(1), 5), Ok(2));
    assert_eq!(store.get(), Some((id(1), u16::MAX)));
    assert_eq!(store.try_send(id(1), 5), Ok(0));
    assert_eq!(store.get(), Some((id(1), u16::MAX)));
}

#[test]
fn store_try_recv_does_not_take() {
    let mut store = ResourceStore::default();
    assert_eq!(store.try_recv(1), None);
    store.set(id(6), 4);
    assert_eq!(store.try_recv(1), Some((id(6), 1)));
    assert_eq!(store.try_recv(9), Some((id(6), 4)));
    assert_eq!(store.get(), Some((id(6), 4)));
    store.pop(4);
    assert_eq!(store.get(), None);
    assert!(store.is_empty());
}

#[test]
fn store_try_add_needs_a_resident() {
    let mut store = ResourceStore::default();
    assert!(!store.try_add(3));
    assert_eq!(store.get(), None);
    store.set(id(2), 1);
    assert!(store.try_add(3));
    assert_eq!(store.stored(), 4);
    assert_eq!(store.resource(), Some(id(2)));
    assert!(store.is_empty_or_has(id(2)));
    assert!(!store.is_empty_or_has(id(3)));
    store.pop(4);
    assert!(store.is_empty_or_has(id(3)));
    assert_eq!(store.resource(), None);
}

#[test]
fn ports_are_independent() {
    let mut ports = Ports::default();
    ports.get_mut(PortID::B).set(id(1), 5);
    ports.get_mut(PortID::D).set(id(2), 7);
    assert_eq!(ports.get(PortID::A).get(), None);
    assert_eq!(ports.get(PortID::B).get(), Some((id(1), 5)));
    assert_eq!(ports.get(PortID::C).get(), None);
    assert_eq!(ports.get(PortID::D).get(), Some((id(2), 7)));
    ports.get_mut(PortID::B).clear();
    assert_eq!(ports.get(PortID::B).get(), None);
    assert_eq!(ports.get(PortID::D).get(), Some((id(2), 7)));
}

#[test]
fn resource_ids_are_ordered_as_their_integers() {
    assert!(id(1) < id(2));
    assert!(id(2) > id(1));
    assert!(id(7) <= id(7));
    assert!(id(7) >= id(7));
    assert!(!(id(7) < id(7)));
    assert!(id(255) < id(256));
    assert!(id(1) < id(u16::MAX));
    assert_eq!(id(3).partial_cmp(&id(4)), Some(std::cmp::Ordering::Less));
    assert_eq!(id(4).partial_cmp(&id(4)), Some(std::cmp::Ordering::Equal));
    assert_eq!(id(5).partial_cmp(&id(4)), Some(std::cmp::Ordering::Greater));
    assert_eq!(id(3).cmp(&id(4)), std::cmp::Ordering::Less);
    assert_eq!(id(9).max(id(4)), id(9));
    let mut ids = vec![id(5), id(1), id(300), id(2)];
    ids.sort();
    assert_eq!(ids, vec![id(1), id(2), id(5), id(300)]);
    for a in 1..40u16 {
        for b in 1..40u16 {
            assert_eq!(id(a) == id(b), a == b);
            assert_eq!(id(a) < id(b), a < b);
            assert_eq!(id(a).cmp(&id(b)), a.cmp(&b));
        }
        assert_eq!(ResourceID::try_from_inner(id(a).into_inner()), Some(id(a)));
    }
}

#[test]
fn id_for_keeps_a_held_identifier_and_draws_a_new_one_otherwise() {
    let mut counter = ResourceCounter::new();
    assert_eq!(ResourceType::id_for(None, &mut counter), Ok(id(1)));
    assert_eq!(ResourceType::id_for(Some(id(1)), &mut counter), Ok(id(1)));
    assert_eq!(ResourceType::id_for(Some(id(40)), &mut counter), Ok(id(40)));
    assert_eq!(ResourceType::id_for(None, &mut counter), Ok(id(2)));
    assert_eq!(ResourceType::id_for(None, &mut counter), Ok(id(3)));
    for _ in 3..u16::MAX {
        counter.allocate().unwrap();
    }
    assert_eq!(ResourceType::id_for(None, &mut counter), Err(ResourceIDExhaustion));
    assert_eq!(ResourceType::id_for(Some(id(9)), &mut counter), Ok(id(9)));
    assert_eq!(ResourceType::id_for(None, &mut counter), Err(ResourceIDExhaustion));
}

#[test]
fn resource_types_never_share_an_identifier() {
    let mut counter = ResourceCounter::new();
    let types: Vec<ResourceType> = (0..50).map(|_| ResourceType::new("ORE")).collect();
    let mut seen = Vec::new();
    for round in 0..3 {
        for (index, resource) in types.iter().enumerate() {
            let id = resource.id(&mut counter).unwrap();
            assert_ne!(id.into_inner(), 0);
            if round == 0 {
                assert!(!seen.contains(&id));
                seen.push(id);
            } else {
                assert_eq!(seen[index], id);
            }
        }
    }
    assert_eq!(counter.allocate().unwrap().into_inner(), 51);
}
