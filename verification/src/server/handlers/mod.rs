//! Handlers of client requests: each answers the message kinds it serves
//! and refuses the others.
pub mod auth;
pub mod echo;
pub mod heartbeat;
pub mod message;

pub use auth::AuthHandler;
pub use echo::EchoHandler;
pub use heartbeat::HeartbeatHandler;
pub use message::MessageHandler;
