//! The relay server: its route registry and the decisions it takes for each
//! connection and each frame.
pub mod channel;
pub mod config;
pub mod connections;
pub mod handlers;
pub mod listener;
pub mod networking;
pub mod routed_listener;
pub mod router;
pub mod routing;
pub mod services;
pub mod sessions;

pub use config::{ListenerConfig, RelaySecrets};
pub use connections::{Connection, ConnectionId, ConnectionManager};
pub use handlers::{AuthHandler, EchoHandler, HeartbeatHandler, MessageHandler};
pub use networking::OutboundWriter;
pub use routed_listener::{PrefixedStream, ROUTE_REGISTRATION_ID};
pub use routing::{ServerOutboundRouter, StandardHandler};
pub use services::EchoService;
pub use sessions::{Session, SessionManager};
