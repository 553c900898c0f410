# Telecom protocol codecs and state engines, verified with Verus

This crate holds wire codecs and protocol state machines for mobile-core and
transport protocols: Diameter and its application interfaces (S6a, S6b, S6c,
S6m, S6t, S9, S13, SLg, SLh, Sh, Sy, Gx, Rx, Cx, Zh, SGd, Np, SWm, charging),
CoAP, DHCP, DHCPv6, DNS, 5G service functions (CHF, DDNMF, DCCF), O-RAN E2AP,
5G E1AP and DetNet (MPLS control word, TSN mapping, IP/MPLS flow mapping,
schedulability bookkeeping).

Layout:

- `src/` is the library. Its functions carry `requires`/`ensures` contracts that
  Verus proves, and a number of laws that relate several operations (a DNS message
  read back from what a builder wrote, a Diameter or CoAP message read back, a
  release undoing a commit) are public proof functions next to the code they
  speak of. `dns_readback`, `dhcp_readback`, `dhcpv6_readback` and
  `diameter_gx_readback` hold the
  read-back laws of those codecs.
  `net`, `wire`, `table` and `text` hold the shared models: addresses,
  big-endian integers, keyed tables with their map views, and text helpers.
- `tests/` runs the library on concrete values.
- `app/` holds what works with floating point (latency budgets, admission
  reports, KPM metric payloads, telemetry thresholds); it calls the library
  for the integer bookkeeping.
