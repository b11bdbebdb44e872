//! Reconnecting market data streams: the rules that decide when a stream is
//! re-initialised, how long it waits before it tries again, what its consumer
//! sees, and how long it may stay silent.

pub mod error;
pub mod exchange;
pub mod streams;
pub mod subscription;
pub mod text;
pub mod time;
