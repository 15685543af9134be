//! Technical indicators and a bar-by-bar trade simulator over price series.
//!
//! The library decides the shape of every result: which positions of an
//! indicator series are defined, how many samples each window holds, and how
//! the simulated position moves from bar to bar. The price arithmetic itself
//! is supplied by the caller.

pub mod ema;
pub mod error;
pub mod indicators;
pub mod simulator;
pub mod window;
