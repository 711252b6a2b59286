# virtio_fuzz

Fuzzers for two virtio devices, virtio-blk and virtio-net, with the decisions
they take written in Verus.

A fuzz input is a run of bytes. It is decoded into actions, and each action into
the steps that a guest driver, a transport and, for virtio-net, a network
backend take: writes to guest memory, descriptors, ring publications, kicks,
queue starts and stops, resets. The library decides on the steps and keeps the
books they rest on. It touches no device; `app/` does that.

## Layout

- `src/input.rs`: drawing numbers and flags from the input.
- `src/wire.rs`: little-endian integers.
- `src/ring.rs`: descriptors and feature negotiation.
- `src/blk/`: virtio-blk. `grammar` holds the actions, `chain` the layout of one
  descriptor chain, `harness` the state of a run, `laws` what holds of every run.
- `src/net/`: virtio-net. `action` holds the actions and the ops they take,
  `guest_queue` descriptor slot accounting, `data_alloc` the buffer arena,
  `backend` the network backend, `harness` the state of a run. `slot_laws`,
  `backend_laws` and `laws` state what holds throughout.
- `tests/`: the library on concrete values.
- `app/`: the fuzz target. It carries the steps out on a device and reports back
  what the device did.

## What is proved

Every function states its result and the state it leaves behind. On top of that
the `laws` modules state, among other things, that

- every buffer handed to a device lies in the data region, except where a chain
  points outside guest memory on purpose;
- descriptor chains are linked soundly, published only once complete, and never
  laid over slots that the device may still own, and the available ring is never
  overrun;
- the backend completes only what it was handed, exactly once, in order, and on
  whole packet boundaries, and is ready only if a poll finds something;
- queues are stopped before a reset, and rings are initialized only while no
  queue runs;
- no run exceeds its bounds on chains, bytes, actions and yields, and an action
  that hits a bound on posted chains does nothing at all;
- the packed ring is never negotiated.

Calls into the `arbitrary` and `zerocopy` crates are trusted; what is believed of
them is stated in `src/input.rs` and `src/wire.rs`.
