//! Routing of client messages to their handlers, and of server messages to clients.
pub mod inbound_router;
pub mod outbound_router;

pub use inbound_router::{standard_handler, StandardHandler};
pub use outbound_router::ServerOutboundRouter;
