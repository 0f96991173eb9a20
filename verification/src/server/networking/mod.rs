//! The server pipeline's decisions on incoming frames.
pub mod pipeline;
pub mod writer;

pub use writer::OutboundWriter;
