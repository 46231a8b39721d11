# Rat

A network sniffer: it reads frames from a BPF capture device, splits each
capture buffer into packets, and walks the protocol layers of every packet
through a registry of protocols, printing each layer's header.

The library under `src/` is written in Verus, and every function in it is
proved against its contract, except a few small wrappers around the `bytes`
crate and the standard library (`src/buffer.rs`, `u16_from_ne_bytes` in
`src/wire.rs`, `invalid_input` in `src/addrs.rs`) and the declarations of
the outside types they handle (`Bytes`, `std::io::Error`), whose contracts
are trusted and whose doc comments say what they claim:

- `wire`: big-endian, little-endian and host-order reads of integers.
- `addrs`: MAC, IPv4 and IPv6 addresses and their text forms, interface
  names for interface requests, and the map of the system's interfaces.
- `packet`, `protocols`: what a protocol header is (its parent, selector,
  byte layout and printed fields) and the built-in protocols.
- `registry`: the protocol registry, its builder and the routing from a
  parent protocol and selector to a child protocol.
- `parser`: the walk through the layers of one frame.
- `format`, `text`: the text of a header and of numbers.
- `key_order`: selector keys ordered by their values.
- `capture`, `bpf`: BPF record headers and the records of a capture buffer.
- `rat_rs`: the values a C capture library reports, decoded.

`app/` is the command-line program around it: opening the capture device,
reading interfaces from the system, asynchronous reading of batches and
printing.
