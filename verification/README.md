# eevideo

The protocol core of EEVideo compatibility streaming, written in Verus and proved against
its contracts.

- `src/` is the verified library: CoAP message encoding and decoding, the register access
  protocol and its register map, discovery advertisements, the compatibility packet format,
  the packetizer and the frame assembler, pixel formats, device descriptions, the control
  session and backend decisions, the device's register behaviour and its synthetic capture,
  and the decisions of the command-line tools, the viewer and the GStreamer elements.
  `src/reassembly.rs` holds the proofs that packetized frames come back whole through the
  assembler, in order or reordered. The control session records, as ghost state, every
  request it makes of its backend and connection, and its contracts state that record; the
  receiver's per-turn decision is a step function whose run over a stream of frames stops
  at the first change of format.
- `tests/` runs the library on concrete values.
- `app/` is the unverified shell: sockets, threads, files, YAML through serde, and the
  `eevid`, `eefakedev` and `eedeviced` command lines, chosen by the first argument.
