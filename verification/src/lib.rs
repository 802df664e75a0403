//! Verified building blocks for media streaming: bit-level readers and
//! writers, Exp-Golomb codes, AV1 and AMF0 encodings, and the plain-value
//! parts of an ffmpeg wrapper and a request batcher.
pub mod error;
pub mod byte_buf;
pub mod bits;
pub mod cursor;
pub mod bit_reader;
pub mod bit_writer;
pub mod bit_laws;
pub mod exp_golomb;
pub mod av1;
pub mod amf0;
pub mod ffmpeg;
pub mod batching;
pub mod context;
pub mod parse;
pub mod bootstrap;
pub mod telemetry;
