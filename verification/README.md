# ergot

A messaging library for networks of devices, from microcontrollers to PCs:
addressing, frame headers, framing, and the routing decisions of its profiles,
written in Verus with their contracts proved.

## Layout

- `src/` — the verified library.
  - `address`, `nash`, `lib.rs`: addresses and their packed word, name hashes,
    frame headers.
  - `net_stack`, `conformance`: the net stack's send decisions and the fixtures
    of its conformance cases.
  - `interface_manager`: interface states and errors, and
    - `profiles`: the null profile, the edge device profile, the Direct Router
      (ordered routing table, lowest-free net id allocation, seed leases with
      tombstones) and the `no_std` router (slots and seed routes);
    - `std_tcp`, `std_tcp_router`: COBS accumulation, the draining of a byte
      stream into frames, the TCP frame format and the connection table of the
      TCP interface manager;
    - `interface_impls`, `transports`: USB packet framing, the choice of new USB
      devices, and the decisions of the transport workers (liveness, the UDP
      receive step, stall recovery, zero-length packets).
  - `logging`: log message types, the defmt logger state and its frame
    accumulation, the choice of the internal log sink.
- `tests/` — tests on concrete values, through the public API.
- `app/` — runtime glue: serde forms of the library's types, a TCP interface
  manager over std sockets and threads, and a Direct Router that owns the sinks
  of its links and reads the clock.

The profiles decide and the caller acts: a router's send methods return which
interface gets which header; time is passed in milliseconds of a monotonic
clock, and refresh tokens are drawn by the caller.
