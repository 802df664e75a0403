# scuffle (verified)

Building blocks for media streaming, written in Verus and proved against
their contracts.

- `src/` is the verified library:
  - `bits`, `cursor`, `bit_reader`, `bit_writer`: bit-level reading and
    writing over byte buffers (`bytes::Bytes` for reading, `Vec<u8>` for
    writing), most significant bit first;
  - `exp_golomb`: Exp-Golomb codes, with their encode/decode round trip;
  - `av1`: the AV1 codec configuration record, with its mux/demux round
    trip;
  - `amf0`: AMF0 markers, values and their encoding;
  - `ffmpeg`: error codes and their messages, rationals, packet and frame
    timing fields and the muxer's timing fix-ups, a frame-rate limiter, log
    levels;
  - `batching`: the decisions of a request batcher (timer steps, batch and key-set
    filling) and its builders;
  - `context`: the bookkeeping behind cancellable contexts;
  - `parse`: integers and booleans from text, as `str::parse` reads them;
  - `bootstrap`: the async runtime's settings, decided from environment
    variable values;
  - `telemetry`: the telemetry service's routing, its answer statuses and
    the CPU profile endpoint's query parameters;
  - `byte_buf`: the trusted interface to `bytes::Bytes`.
- `app/` is the unverified runtime around it: the tokio batcher and data
  loader, cancellable contexts on `tokio-util`, the tokio runtime builder
  and named service futures, and floating-point views. The telemetry HTTP
  server, its metrics and profiling backends, the bootstrap derive macro and
  the ffmpeg bindings are not here: their crates cannot be had.
- `tests/` exercises the library from outside.
