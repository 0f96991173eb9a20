//! The echo service: hands a payload back unchanged.
use vstd::prelude::*;

verus! {

/// Pure domain echo service: no network I/O, no socket handling and no
/// protocol serialization.
#[derive(Debug, Clone, Default)]
pub struct EchoService;

impl EchoService {
    pub fn new() -> (r: Self) {
        EchoService
    }

    /// Processes an echo request and returns the loopback payload.
    pub fn process_echo(&self, payload: Vec<u8>) -> (r: Vec<u8>)
        ensures
            r@ == payload@,
    {
        payload
    }
}

} // verus!
