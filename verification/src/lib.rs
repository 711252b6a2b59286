//! Decision logic of two virtio device fuzzers, one for virtio-blk and one for
//! virtio-net.
//!
//! A fuzz input is decoded into actions. Each action is turned into the steps a
//! guest driver and a transport would take: guest memory writes, descriptor
//! writes, ring publications, kicks, and queue lifecycle calls. Deciding on the
//! steps, and keeping the books they rest on, is done here, with contracts.
//! Performing them on a device is left to the caller.

pub mod blk;
pub mod input;
pub mod net;
pub mod ring;
pub mod wire;
