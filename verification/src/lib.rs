//! Sector-aware copying of raw dumps.
//!
//! A dump is a stream of fixed-size units, each a payload sector followed by a
//! few spare bytes. The library resolves where a copy starts on either side,
//! decides step by step what a copy run does next, and states what a run leaves
//! in the output.

pub mod engine;
pub mod image;
pub mod layout;
pub mod offset;
pub mod request;
pub mod run;
