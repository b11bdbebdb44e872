//! Streams of market data.

pub mod consumer;
pub mod reconnect;
