use astro_core::power::{power_change, power_sufficient, PowerChange, PowerDevice, PowerNetwork};
use astro_core::resources::ports::EntityId;

#[test]
fn power_change_is_the_difference() {
    assert_eq!(power_change(5, 2), PowerChange::Less(3));
    assert_eq!(power_change(2, 5), PowerChange::Greater(3));
    assert_eq!(power_change(4, 4), PowerChange::Equal);
    assert_eq!(power_change(0, u32::MAX), PowerChange::Greater(u32::MAX));
    assert_eq!(power_change(u32::MAX, 0), PowerChange::Less(u32::MAX));
}

#[test]
fn power_is_sufficient_up_to_supply_and_limit() {
    assert!(power_sufficient(10, 20, 10));
    assert!(!power_sufficient(10, 20, 11));
    assert!(power_sufficient(30, 20, 20));
    assert!(!power_sufficient(30, 20, 21));
    assert!(power_sufficient(0, 0, 0));
}

#[test]
fn power_network_accounts_for_its_devices() {
    let network = PowerNetwork::new(100);
    assert!(network.has_power());
    network.change_demand(0, 30);
    assert!(!network.has_power());
    network.change_supply(0, 50);
    assert!(network.has_power());
    network.change_demand(30, 60);
    assert!(!network.has_power());
    network.change_supply(50, 200);
    assert!(network.has_power());
    network.change_demand(60, 101);
    assert!(!network.has_power());
    network.change_demand(101, 0);
    network.change_supply(200, 0);
    assert!(network.has_power());
}

#[test]
fn power_device_enters_and_leaves_the_account() {
    let network = PowerNetwork::new(1000);
    let lamp = PowerDevice { network: Some(EntityId(1)), request: 40, provide: 0 };
    let plant = PowerDevice { network: Some(EntityId(1)), request: 0, provide: 30 };
    assert!(lamp.apply_network(Some(&network)));
    assert!(!network.has_power());
    assert!(plant.apply_network(Some(&network)));
    assert!(!network.has_power());
    let bigger = PowerDevice { network: Some(EntityId(1)), request: 0, provide: 45 };
    assert!(bigger.update_network(plant, Some(&network)));
    assert!(network.has_power());
    assert!(bigger.revert_network(Some(&network)));
    assert!(!network.has_power());
    assert!(lamp.revert_network(Some(&network)));
    assert!(network.has_power());
    assert!(!lamp.apply_network(None));
    assert!(!lamp.revert_network(None));
    assert!(!lamp.update_network(plant, None));
}

#[test]
fn power_device_that_moves_changes_both_accounts() {
    let first = PowerNetwork::new(1000);
    let second = PowerNetwork::new(1000);
    let lamp = PowerDevice { network: Some(EntityId(1)), request: 40, provide: 0 };
    lamp.apply_network(Some(&first));
    assert!(!first.has_power());
    let moved = PowerDevice { network: Some(EntityId(2)), request: 50, provide: 0 };
    assert!(moved.changed(lamp, Some(&first), Some(&second)));
    assert!(first.has_power());
    assert!(!second.has_power());
    let dimmed = PowerDevice { network: Some(EntityId(2)), request: 0, provide: 0 };
    assert!(!dimmed.changed(moved, Some(&second), Some(&second)));
    assert!(second.has_power());
    let loose = PowerDevice { network: None, request: 7, provide: 0 };
    assert!(loose.changed(dimmed, Some(&second), None));
    assert!(second.has_power());
    assert!(!loose.changed(loose, None, None));
}
