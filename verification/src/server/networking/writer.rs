//! The writer that serialises a connection's outbound frames.
use vstd::prelude::*;

verus! {

/// The actor that writes a connection's outbound frames to its stream one at
/// a time, in the order they were queued.
pub struct OutboundWriter;

} // verus!
