//! The plain-value parts of an ffmpeg wrapper: error codes and their
//! messages, rational numbers, packet and frame fields, a frame-rate limiter
//! and small ownership helpers.
pub mod error;
pub mod text;
pub mod rational;
pub mod limiter;
pub mod utils;
pub mod frame;
pub mod packet;
pub mod muxer;
pub mod consts;
pub mod smart_object;
pub mod log;
