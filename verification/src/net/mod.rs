//! The virtio-net fuzzer: guest-controlled receive and transmit rings on one
//! side, a well-behaved network backend on the other.

pub mod action;
pub mod backend;
pub mod backend_laws;
pub mod data_alloc;
pub mod guest_queue;
pub mod harness;
pub mod laws;
pub mod layout;
pub mod op_laws;
pub mod slot_laws;
