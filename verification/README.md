# modbus_tool

A Modbus toolkit whose logic is verified with Verus:

- `src/modbus/protocol.rs` — PDUs, MBAP headers, Modbus TCP and RTU frames,
  CRC-16, request builders and response parsers.
- `src/modbus/rtu.rs` — the RTU framer that delimits frames in a serial byte
  stream, and the RTU timing rules.
- `src/modbus/tcp.rs` — TCP session state, transaction bookkeeping, MBAP checks.
- `src/automation.rs` — the trigger/action script engine evaluated on every
  polling cycle; `src/script/` — the simpler engine keyed by script id.
- `src/commands/` — the data and handlers exchanged with the user interface.
- `src/error.rs`, `src/registers.rs`, `src/text.rs`, `src/ids.rs`,
  `src/clock.rs`, `src/byte_buffer.rs`, `src/maps.rs` — supporting types and
  the calls into `bytes`, `uuid`, `chrono` and std.

`app/` holds the executable: logging set-up, serial and TCP I/O, the global
script engine and the serializable copies of the library's types.
