//! Resource identity, ports and pipes.

pub mod pipe;
pub mod ports;
pub mod resource;
