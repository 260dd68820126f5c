# iot_gateway

A Modbus TCP → MQTT/SQLite gateway. The decisions of the gateway are a
library verified with Verus; the program around it does the I/O.

## Layout

- `src/` — the verified library
  - `config.rs`: built-in defaults and the rule that fills every key a
    configuration file leaves out with its default.
  - `address.rs`: the `IP:port` socket-address grammar (IPv4, bracketed IPv6
    with optional scope), stated as spec functions, and a parser proved to
    agree with it; `address_laws.rs`: what that grammar means for `host:port`
    texts (IPv4/IPv6 literals read back exactly, the port always carried).
  - `broker.rs`: the embedded broker's settings for a bind address.
  - `simulator.rs`: the simulated Modbus device (register 0 counts up).
  - `collector.rs`: what the poller does with each reply.
  - `telemetry.rs`: the record made of each collected value and its flat
    JSON payload (encoded by serde_json).
- `tests/` — tests of the library.
- `app/` — the program: configuration file loading, the SQLite historian,
  the MQTT broker and clients, the Modbus server and client, and `main`.
