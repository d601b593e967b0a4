# graphpad-core

The host side of GraphPad, which turns an iPad and Apple Pencil into a graphics
tablet for a desktop, written in Verus.

- `src/` is the verified library:
  - `protocol` — the binary wire protocol v1 (frame types, payloads, encoding
    and decoding), with `protocol::format` stating the format as mathematics and
    proving that decoding an encoded frame gives it back;
  - `endian` — big-endian layouts of `u16`/`u32`/`u64`;
  - `bufio` — the `bytes` crate and std calls the codec makes, each with its contract;
  - `session` — what each received frame does to a client session and what the
    host must do in response, sequence-gap accounting, frame splitting;
  - `mapping` — tablet extents and mapper configuration;
  - `uinput`, `tablet`, `windows` — the virtual tablet backends' device
    description and input-event logic.
- `app/` is the daemon: argument parsing, the TCP server, floating-point
  scaling of pen samples, and the device I/O.
- `tests/` exercises the library on concrete values.

Values that travel as `f32` on the wire are held in the library as their
IEEE-754 bit patterns (`f32::to_bits`).
