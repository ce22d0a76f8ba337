# panweave (verified)

IEEE 802.15.4 MAC and Zigbee network-layer building blocks, written in
Verus: every function in `src/` carries a `requires`/`ensures` contract
that Verus proves.

Layout:

- `src/types.rs`, `src/codec.rs` — addresses, channels, time, and the
  little-endian readers and writers every codec uses.
- `src/mac/` — frame codec (`frame`), information elements (`ie`), the
  Power Control Information Table (`power`), radio-facing types
  (`radio`), timing constants (`constants`) and the sans-I/O MAC state
  machine (`service`), specified as a transition function over
  `MacServiceView`.
- `src/nwk/` — NWK frame and command codecs, the beacon payload, the NIB
  and the NIB tables (neighbors, address map, broadcast transactions,
  discovery, joining list, MAC interfaces), and the decisions of the
  network layer as step functions from state and event to next state and
  outcome: broadcast reception, relay, retransmission and origination
  (`relay`), beacons during discovery, formation and operation (`scan`),
  formation (`formation`) and the choice of a parent when joining
  (`join`), the parent side of an attach (`attach`), the timer service
  (`timers`), the reception path (`rx`) and the data request decision
  (`tx`), gathered over the layer's state in `state`. Securing frames,
  drawing random values and looking up the routing tables are left to
  the caller, which passes the results in.
- `tests/` — scenario tests.
- `app/` — the asynchronous radio driver interface and the step that runs
  one MAC action on a radio; the broadcast timer pass and broadcast
  origination, which secure frames between the library's steps.

Not here: the routing, route discovery and source route tables and the
procedures that work on them (route request and route reply handling,
route repair), the NWK frame security transform, and the queue of
frames waiting for the MAC. The decisions above take what those parts
would supply (a route lookup, the outcome of unsecuring a frame, a
frame counter reservation) as arguments.

Round-trip laws (decoding what was encoded gives the value back) are
proof functions next to each codec; table laws (what a lookup finds after
an update) next to each table.
