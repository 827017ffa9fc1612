# kosa_interface

Serial framing for a KOSA measuring device, verified with Verus.

- `src/crc.rs` — the Modbus CRC-16 of the frames, its specification and the
  proof that a message closed by its CRC checks to zero.
- `src/buffer.rs` — `bytes::BytesMut` seen as the sequence of bytes it holds,
  and the trusted wrappers of the methods the codecs call.
- `src/protocol.rs` — requests, the measurement type (its 32 bytes, each
  value in native `f32` byte order), the protocol errors and the reading of a
  measurement out of a response frame.
- `src/line_codec.rs`, `src/lib.rs`, `src/poll.rs` — three codecs that share
  the request writer and differ in how they treat an all-zero measurement.
- `app/main.rs` — the serial-port programs: `tokio_util` codec glue, the
  floating-point view of a measurement, and the polling loops.
