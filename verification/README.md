# daly_bms

Verified core of a WebBluetooth monitor for Daly battery management systems.

- `src/` — the library, verified with Verus:
  - `crc` — CRC-16 (reflected polynomial 0xA001) with the chaining and
    residue laws;
  - `command` — the "read status" request frame;
  - `hex` — space-separated hex rendering of values and reading it back,
    with the injectivity and parse-back laws;
  - `event` — choosing and windowing the value of a notification event;
  - `gatt` — device filter, service UUIDs and how each characteristic is used;
  - `state` — readings, connection state and the message handler's decisions;
  - `view` — which readings and which buttons the interface shows.
- `app/` — the browser side: WebBluetooth calls, async tasks and the egui
  interface, driving the library.
- `tests/` — tests of the library on concrete values.

Decoding the contents of Daly status frames (cell voltages, current, state
of charge) is not part of this crate: values are kept and shown as hex.
