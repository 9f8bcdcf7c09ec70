//! Frames on the wire.

pub mod buffer;
pub mod compress;
pub mod frame;
pub mod stream_result;
