# isla

Parsing and reply construction for a small Ethernet / IPv6 / ICMPv6 network
stack, with a static-page HTTP responder, written in Verus.

- `src/wire.rs` — network-order 16-bit fields (through `byteorder`) and byte copies.
- `src/ethernet.rs` — MAC addresses, EtherType codes, Ethernet header parsing and writing.
- `src/ipv6.rs` — IPv6 addresses, next-header codes, IPv6 header parsing and writing.
- `src/checksum.rs` — the ICMPv6 checksum over the IPv6 pseudo-header, and the proof
  that a message carrying its checksum verifies.
- `src/icmpv6.rs` — ICMPv6 message types, parsing, echo replies and neighbor advertisements.
- `src/responder.rs` — the reply the stack sends for an IPv6 frame.
- `src/http.rs` — the HTTP responder.
- `src/packet.rs` — fixed-size frame buffers.
- `app/main.rs` — a driver that answers frames given as hexadecimal lines.

Each header writer comes with a proof that parsing what it wrote gives back
the fields it was given.
