# p2wlan_udp

The decisions of a peer-to-peer UDP transport, as a verified Verus library: when
a probe may leave and from which socket, what an answer proves, which dedicated
socket a peer keeps, how a birthday session spreads its targets over ports and
sockets, and when business traffic may use a direct path.

Time is a `u64` of nanoseconds on one clock. Nothing in the library sends,
sleeps or locks: each function takes what was read and returns what to do.

## Modules

- `net`, `text`, `table`, `window`, `histogram`: addresses and what the others
  are built from.
- `probe_budget`, `heartbeat_budget`, `admission`: how much may be sent, and
  what is let in.
- `socket_state`, `socket_watch`, `pending`, `diagnostics`, `transport`: the
  sockets, the probes under way, and the books.
- `probe_send`, `punch_session`, `socket_sweep`, `punch_reports`, `failure`:
  sending probes and reporting on them.
- `birthday`, `birthday_generation`, `birthday_sweep`: sessions between two
  NATs that both allocate a port for each destination.
- `fresh_mapping`, `learning`, `gather`: measuring how a NAT allocates.
- `inbound`, `keepalive`, `heartbeat`, `nat_maintainer`: what comes in, and
  what keeps a path warm.
- `direct_validation`, `business_mtu`: proving a direct path, and using it.

The properties that span several functions are the public proof functions whose
names start with `law_`.

`app/` runs the library on tokio: sockets, timers, tasks and locks. The peer
registry, the packet formats and the port models come in through the traits of
`app/peers.rs`.
