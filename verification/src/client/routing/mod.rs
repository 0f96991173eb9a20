//! Framing of outgoing client messages and correlation of incoming ones.
pub mod inbound_router;
pub mod outbound_router;

pub use outbound_router::ClientOutboundRouter;
