//! Validation of protocol messages and of message timestamps.
use vstd::prelude::*;

use crate::error::ValidationError;
use crate::protocol::envelope::{is_response_code, message_type_code, MessageEnvelope};

verus! {

/// Validation of protocol messages and structures.
pub trait Validate {
    fn validate(&self) -> (r: Result<(), ValidationError>);
}

impl Validate for MessageEnvelope {
    /// A response must name the request it answers: a zero correlation id is refused.
    fn validate(&self) -> (r: Result<(), ValidationError>)
        ensures
            is_response_code(message_type_code(self.message_type)) && self.correlation_id == 0 ==> r
                == Err::<(), ValidationError>(ValidationError::MissingCorrelationId),
            !(is_response_code(message_type_code(self.message_type)) && self.correlation_id == 0) ==> r is Ok,
    {
        if self.message_type.is_response() && self.correlation_id == 0 {
            return Err(ValidationError::MissingCorrelationId);
        }
        Ok(())
    }
}

/// The distance between two instants in seconds.
pub open spec fn abs_diff(a: u64, b: u64) -> int {
    if a >= b { a - b } else { b - a }
}

/// Accepts a timestamp within `max_skew_secs` of `now`, in either direction.
pub fn validate_timestamp(timestamp: u64, now: u64, max_skew_secs: u64) -> (r: Result<(), ValidationError>)
    ensures
        abs_diff(timestamp, now) > max_skew_secs ==> r == Err::<(), ValidationError>(
            ValidationError::TimestampSkew { timestamp, now },
        ),
        abs_diff(timestamp, now) <= max_skew_secs ==> r is Ok,
{
    let diff = if timestamp >= now { timestamp - now } else { now - timestamp };
    if diff > max_skew_secs {
        Err(ValidationError::TimestampSkew { timestamp, now })
    } else {
        Ok(())
    }
}

} // verus!
