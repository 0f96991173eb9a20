//! The client side of the relay protocol: session state, event handlers and
//! the framing and correlation of messages.
pub mod handlers;
pub mod routing;
pub mod session;
pub mod state;

pub use handlers::{ClientEventHandler, NoopClientEventHandler};
pub use routing::ClientOutboundRouter;
pub use session::ClientSession;
pub use state::ClientState;
