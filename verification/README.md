# smoltcp_stack

A network stack over [smoltcp](https://github.com/smoltcp-rs/smoltcp) 0.7 that C
code drives through one-byte socket handles, with a uknetdev device that answers
UDP traffic by reflecting it. The library is written in Verus and proved against
its contracts.

Layout:

- `src/sockets.rs` declares smoltcp's socket set and handles, and gives each
  socket operation that the stack uses a trusted wrapper whose contract speaks of
  `socket_slots`, the sockets of the set slot by slot: TCP state, endpoints,
  receive and transmit queues and capacities, UDP endpoint and buffer sizes.
- `src/stack.rs` holds the stack: the socket set, the table from one-byte
  handles to smoltcp handles (with its invariant), the configuration collected
  for the interface, and the clock; every operation, its outcome as a spec
  function, and the laws that relate operations.
- `src/interface.rs` holds the operations as the C side calls them on a stack of
  any device: socket kind codes, default buffers, and what a uknetdev stack
  refuses.
- `src/frames.rs` reflects frames: through smoltcp's packet views (`uk_recv`)
  and on the fixed C header layout (`uknetdev_input`), with the proofs that both
  undo themselves and that reflecting keeps the IPv4 and UDP checksums valid.
- `src/addresses.rs` and `src/uknetdev_interface.rs` hold the address types and
  the uknetdev device state.
- `app/` is the C interface itself: raw pointers, the smoltcp interface (which is
  generic over smoltcp's `Device` trait), the uknetdev device's `Device` impl, and
  the packet I/O with the uknetdev driver.
