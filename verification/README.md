# ads_client

A client for the Beckhoff ADS protocol, with a verified core.

The client works beside an ADS router. It opens a port on the router, sends
requests to an ADS device, hands each response to the task that waits for it, and
calls the callbacks that are registered for device notifications.

- `src/` is the core, verified with Verus: the AMS header, the reading of frames,
  the register of the requests that wait, the walk over notification streams, and
  the builder. It takes and gives plain values and byte buffers, and does no I/O.
- `app/` is the client over TCP: the connection, the tasks and the locks, on top of
  `tokio`.
- `tests/` holds the tests of the core.

Integers stand in a frame in the byte order of the machine, but for ports and state
flags of a request, which are written low byte first on every machine. ADS itself is
low byte first, as are the machines that it runs on.

What the core takes for granted of the `bytes` and `tokio` crates stands in
`src/buffer.rs` and `src/channel.rs`; what it takes for granted of the conversions
between integers and bytes stands in `src/wire.rs`.
