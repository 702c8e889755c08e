//! Correlation core of a subprocess worker: framing of request and response
//! lines, the registry of outstanding requests, and the multiplexer state that
//! ties sequence numbers to delivery slots.

pub mod codec;
pub mod errors;
pub mod hooks;
pub mod registry;
pub mod worker;
