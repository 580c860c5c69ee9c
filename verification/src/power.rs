//! The account of power supplied to and demanded from one network.

use vstd::prelude::*;
use std::sync::atomic::AtomicU32;
use crate::resources::ports::EntityId;

verus! {

/// Whether a network that is supplied `supply`, of which it can pass on
/// `supply_limit` at most, covers a demand of `demand`.
pub open spec fn covers(supply: u32, supply_limit: u32, demand: u32) -> bool {
    demand <= supply && demand <= supply_limit
}

/// Whether a network that is supplied `supply`, of which it can pass on
/// `supply_limit` at most, covers a demand of `demand`.
pub fn power_sufficient(supply: u32, supply_limit: u32, demand: u32) -> (sufficient: bool)
    ensures
        sufficient == covers(supply, supply_limit, demand),
{
    let supply = if supply <= supply_limit {
        supply
    } else {
        supply_limit
    };
    demand <= supply
}

/// How an account changes when a device that stood in it with `old` now
/// stands in it with `new`.
#[derive(Debug, Clone, Copy, PartialEq, Eq, Structural)]
pub enum PowerChange {
    /// The account falls by this much.
    Less(u32),
    /// The account rises by this much.
    Greater(u32),
    /// The account stays as it is.
    Equal,
}

/// The change of an account in which `new` takes the place of `old`.
pub fn power_change(old: u32, new: u32) -> (change: PowerChange)
    ensures
        change == if new < old {
            PowerChange::Less((old - new) as u32)
        } else if new > old {
            PowerChange::Greater((new - old) as u32)
        } else {
            PowerChange::Equal
        },
{
    if new < old {
        PowerChange::Less(old - new)
    } else if new > old {
        PowerChange::Greater(new - old)
    } else {
        PowerChange::Equal
    }
}

/// A power network: what its devices supply and demand, kept in counters
/// that many devices may change at once.
pub struct PowerNetwork {
    /// The most power the network passes on, however much is supplied.
    pub supply_limit: u32,
    supply: AtomicU32,
    demand: AtomicU32,
}

impl PowerNetwork {
    /// A network without devices that passes on up to `supply_limit`.
    pub fn new(supply_limit: u32) -> (network: Self)
        ensures
            network.limit() == supply_limit,
    {
        Self { supply_limit, supply: AtomicU32::new(0), demand: AtomicU32::new(0) }
    }

    /// Replaces a supply of `old` by one of `new`.
    pub fn change_supply(&self, old: u32, new: u32) {
        change(&self.supply, old, new);
    }

    /// Replaces a demand of `old` by one of `new`.
    pub fn change_demand(&self, old: u32, new: u32) {
        change(&self.demand, old, new);
    }

    /// Whether the supply, as far as the network passes it on, covers the
    /// demand at the moment of asking.
    pub fn has_power(&self) -> bool {
        let supply = self.supply.load(std::sync::atomic::Ordering::Acquire);
        let demand = self.demand.load(std::sync::atomic::Ordering::Acquire);
        power_sufficient(supply, self.supply_limit, demand)
    }

    /// The most power the network passes on, however much is supplied.
    pub closed spec fn limit(&self) -> u32 {
        self.supply_limit
    }
}

/// A device that draws on a power network, or feeds it, or both.
#[derive(Clone, Copy)]
pub struct PowerDevice {
    /// The network the device is attached to, if any.
    pub network: Option<EntityId>,
    /// How much power the device demands.
    pub request: u32,
    /// How much power the device supplies.
    pub provide: u32,
}

impl PowerDevice {
    /// Enters the device in the account of `network`, which is the network
    /// the device names if that network exists. Says whether there was a
    /// network to enter it in.
    pub fn apply_network(&self, network: Option<&PowerNetwork>) -> (applied: bool)
        ensures
            applied == network is Some,
    {
        if let Some(network) = network {
            network.change_supply(0, self.provide);
            network.change_demand(0, self.request);
            true
        } else {
            false
        }
    }

    /// Takes the device out of the account of `network`, which is the
    /// network the device names if that network exists. Says whether there
    /// was a network to take it out of.
    pub fn revert_network(&self, network: Option<&PowerNetwork>) -> (reverted: bool)
        ensures
            reverted == network is Some,
    {
        if let Some(network) = network {
            network.change_supply(self.provide, 0);
            network.change_demand(self.request, 0);
            true
        } else {
            false
        }
    }

    /// Replaces in the account of `network` what the device supplied and
    /// demanded as `old` by what it supplies and demands now. Says whether
    /// there was a network to do so in.
    pub fn update_network(&self, old: PowerDevice, network: Option<&PowerNetwork>) -> (updated: bool)
        ensures
            updated == network is Some,
    {
        if let Some(network) = network {
            network.change_supply(old.provide, self.provide);
            network.change_demand(old.request, self.request);
            true
        } else {
            false
        }
    }

    /// Brings the accounts up to date with a device that was `last` and is
    /// now `self`: a device that has moved to another network leaves the
    /// account of the one, `last_network`, and enters that of the other,
    /// `network`; a device that has stayed has its figures replaced in the
    /// account of its network. Says whether the device has moved.
    pub fn changed(&self, last: PowerDevice, last_network: Option<&PowerNetwork>, network: Option<&PowerNetwork>) -> (moved:
        bool)
        ensures
            moved == (last.network != self.network),
    {
        let stayed = match (last.network, self.network) {
            (Some(before), Some(now)) => before == now,
            (None, None) => true,
            _ => false,
        };
        if stayed {
            self.update_network(last, network);
            false
        } else {
            last.revert_network(last_network);
            self.apply_network(network);
            true
        }
    }
}

/// Applies to the counter `v` the change from `old` to `new`.
fn change(v: &AtomicU32, old: u32, new: u32) {
    match power_change(old, new) {
        PowerChange::Less(by) => {
            v.fetch_sub(by, std::sync::atomic::Ordering::AcqRel);
        },
        PowerChange::Greater(by) => {
            v.fetch_add(by, std::sync::atomic::Ordering::AcqRel);
        },
        PowerChange::Equal => {},
    }
}

} // verus!
