//! Authenticated logical sessions of the server and their table.
pub mod manager;
pub mod session;

pub use manager::SessionManager;
pub use session::Session;
