//! The virtio-blk fuzzer: one request queue, driven the way a guest driver and
//! a transport would.

pub mod chain;
pub mod chain_laws;
pub mod grammar;
pub mod harness;
pub mod laws;
pub mod layout;
pub mod step_laws;
