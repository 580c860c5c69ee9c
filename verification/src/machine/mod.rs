//! Capacity-bounded ports and the alternative queue representations of a
//! connection.

pub mod connection;
pub mod connection_checked;
pub mod connection_fast;
pub mod connection_long;
pub mod connection_short;
pub mod connection_u16;
pub mod connection_u32;
pub mod connection_u4;
pub mod nibbles;
pub mod packet;
pub mod ports;
pub mod ringbuffer;
