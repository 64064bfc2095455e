# smart_home

A smart home library verified with Verus: rooms holding thermometers and
sockets under text keys, reports of devices, rooms and homes, the line
protocol spoken with remote outlets over TCP and the datagram sent by remote
thermometers over UDP, the request handling of a REST service, a smart socket
offered to C programs, and the decisions of the outlet and thermometer
simulators.

Physical quantities (watts, degrees Celsius) are carried as the IEEE 754 bit
pattern of a single-precision value; the library compares and formats them
exactly from their bits (`{:.1}` formatting is implemented and proved in
`src/decimal.rs`).

## Layout

- `src/` — the verified library.
  - `keyed.rs`: `KeyedMap`, values under text keys in ascending key order.
  - `text.rs`, `decimal.rs`: trimming, ordering and searching text; one-decimal
    formatting of single-precision values.
  - `types.rs`: `Power`, `Temperature`.
  - `devices/`, `home/`, `report.rs`, `error.rs`: devices, rooms, homes, the
    type-state builder, reports and lookup errors.
  - `wire.rs`: status and command lines, framing, the temperature datagram.
  - `api.rs`: the REST service's decisions and records.
  - `outlet.rs`, `loader.rs`: the C-facing smart socket and where its shared
    library is looked for.
  - `sim.rs`, `ui.rs`: the simulators' and the browser front end's decisions.
  - `laws.rs`: properties spanning several operations.
- `tests/` — tests of the library.
- `app/` — the programs around it: the REST server (axum), the simulators,
  the TCP/UDP side of remote devices, the C ABI and its demonstrations.
