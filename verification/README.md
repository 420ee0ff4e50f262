# hammer_transport

The transport layer of a packet-graph data plane: congestion control, TCP
connection state, loss recovery, listener admission, route lookup and resets.
The library is executable Rust whose behaviour is stated in contracts and proved
by Verus.

| Directory | What it holds |
|---|---|
| `src/congestion` | the controller interface, BBR, and the window of Cubic |
| `src/collections` | hashing, a generational pool, key tables |
| `src/tcp` | TCP itself; see below |
| `src/transport.rs` | what all transports share: pacing, options, the registry |
| `tests` | tests that run the library |
| `app` | clocks, addresses, process-wide state, the sessions of a worker, floating point |

A connection is plain data. `tcp/connection_model.rs` names the state that each
event leads to, and `tcp/connection.rs` computes it; `tcp/recovery_model.rs` and
`tcp/recovery.rs` do the same for loss recovery. `tcp/connection_laws.rs`,
`tcp/recovery_laws.rs`, `tcp/congestion_laws.rs` and `congestion/bbr_laws.rs`
state what holds across events. The stages of the packet graph (`input`,
`listen`, `rcv_process`, `established`, `close_wait`, `fin_wait2`, `output`,
`reset`, `session_queue`) decide what happens to a segment; whoever owns the
buffers and the timer wheel carries the decisions out.

Readings of clocks are arguments. Random keys come from the standard library's
`RandomState`, and listeners are shared between workers through `arc-swap`;
nothing else is taken on trust.
