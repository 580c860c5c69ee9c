//! Transport queues for a fixed-tick factory simulation: single-commodity
//! ports, fixed-transit-time pipes between them, and the per-tick protocol
//! that moves resource units from port to pipe to port.

pub mod dev;
pub mod machine;
pub mod power;
pub mod resources;
pub mod tick;
