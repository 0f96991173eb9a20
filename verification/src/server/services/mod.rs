//! Domain services of the relay.
pub mod echo_service;

pub use echo_service::EchoService;
