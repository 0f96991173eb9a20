pub mod codec;
pub mod envelope;
pub mod frame;
pub mod messages;
pub mod validation;
pub mod versioning;
pub mod wire;

pub use codec::EnvelopeCodec;
pub use envelope::{MessageEnvelope, MessageType, ENVELOPE_HEADER_SIZE, MAX_ENVELOPE_PAYLOAD_SIZE};
pub use frame::{
    constant_time_eq, session_id_eq, Frame, FrameCodec, Nonce, SessionId, FRAME_SIZE, HEADER_SIZE,
    MAX_PAYLOAD_SIZE, NONCE_SIZE, PAYLOAD_LEN_SIZE, SESSION_ID_SIZE,
};
pub use messages::{ClientToServerMessage, DeliveryStatus, PeerStatus, ServerToClientMessage};
pub use validation::Validate;
pub use versioning::ProtocolVersion;
pub use crate::error::{ErrorResponsePayload, ProtocolError};
