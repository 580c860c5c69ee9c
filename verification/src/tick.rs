//! The tick clock: the only time reference of the simulation.

use vstd::prelude::*;

verus! {

/// The number of the current simulation step. It only ever grows, by one per
/// step.
#[derive(Debug, Clone, Copy, PartialEq, Eq, Structural)]
pub struct FactoryTick(pub u32);

/// Advances the clock by one step. The clock must not have reached the end of
/// its range.
pub fn update_tick(tick: &mut FactoryTick)
    requires
        old(tick).0 < u32::MAX,
    ensures
        final(tick).0 == old(tick).0 + 1,
{
    tick.0 += 1;
}

} // verus!
