# renogymon

Monitoring of Renogy lithium batteries through a BT-2 Bluetooth module.

- `src/` is the verified library (Verus):
  - `pdu.rs` — Modbus RTU frames: function codes, CRC-16, encoding and decoding.
  - `transport.rs` — register requests and the decoding of their replies.
  - `bt2.rs` — BlueZ paths, the search for the BT-2 characteristics, the service wait,
    device and notification selection.
  - `tui.rs`, `chart.rs`, `clock.rs` — dashboard texts, chart data reduction, time-axis labels.
  - `text.rs`, `error.rs` — text helpers and the error type.
- `app/` is the I/O around it: the BT-2 transport over D-Bus with tokio, and the
  ratatui dashboard.
- `tests/` exercises the library.
