pub mod client_to_server;
pub mod server_to_client;

pub use client_to_server::ClientToServerMessage;
pub use server_to_client::{DeliveryStatus, PeerStatus, ServerToClientMessage};
