//! Physical connections of the server and the tables that route to them.
pub mod connection;
pub mod manager;

pub use connection::{Connection, ConnectionId};
pub use manager::ConnectionManager;
