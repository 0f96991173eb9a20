//! How the (unrouted) relay listener treats a new connection: pseudo-TLS
//! clients whose cover proof checks out, and direct Noise handshakes, get a
//! Noise session; everything else is proxied to the fallback site.
use vstd::prelude::*;

use crate::protocol::wire::be16_at;
use crate::server::routed_listener::{
    after_record, bytes_after_record, initial_length, leading_length, routed_step, step_view, ConnectionStep, StepSpec,
};
use crate::transport::obfuscation::{
    hello_spec, parse_client_hello, ClientHelloStatus, HelloSpec, TokenValidator, MAX_CLIENT_HELLO_SIZE,
    TLS_HANDSHAKE_CONTENT_TYPE,
};

pub use crate::server::routed_listener::PrefixedStream;

verus! {

/// How the listener treats a connection that sent `initial`. A TLS record
/// must hold a ClientHello whose cover proof the validator accepts (or
/// `dev_mode` holds). A record still arriving is read once more, for the
/// missing bytes (capped at `MAX_CLIENT_HELLO_SIZE`), and `after_read` says
/// that this read has happened: a record still incomplete then goes to the
/// fallback. Without a TLS record, a leading length of 32 to 128 starts a
/// direct Noise handshake; everything else goes to the fallback site.
pub open spec fn listener_step(initial: Seq<u8>, v: TokenValidator, dev_mode: bool, after_read: bool) -> StepSpec {
    if initial.len() == 0 {
        StepSpec::Close
    } else if initial[0] == TLS_HANDSHAKE_CONTENT_TYPE {
        match hello_spec(initial) {
            HelloSpec::Complete { random, session_id, sni, .. } => if dev_mode || v.accepts_fields(random, session_id, sni) {
                StepSpec::Session(after_record(initial))
            } else {
                StepSpec::Fallback
            },
            HelloSpec::NeedMoreData { expected_record_len } => {
                let missing = if expected_record_len > initial.len() { expected_record_len - initial.len() } else { 0 };
                let needed = if missing < MAX_CLIENT_HELLO_SIZE { missing } else { MAX_CLIENT_HELLO_SIZE as int };
                if after_read || needed == 0 {
                    StepSpec::Fallback
                } else {
                    StepSpec::ReadMore(needed)
                }
            },
            HelloSpec::Invalid(_) => StepSpec::Fallback,
        }
    } else if 32 <= leading_length(initial) <= 128 {
        StepSpec::Session(initial)
    } else {
        StepSpec::Fallback
    }
}

/// Decides how the listener treats a new connection from the bytes it has
/// sent so far; `dev_mode` is the operator's switch that accepts every
/// well-formed ClientHello.
pub fn classify_connection(initial: &[u8], validator: &TokenValidator, dev_mode: bool, after_read: bool) -> (r:
    ConnectionStep)
    ensures
        step_view(r) == listener_step(initial@, *validator, dev_mode, after_read),
{
    if initial.len() == 0 {
        return ConnectionStep::Close;
    }
    if initial[0] == TLS_HANDSHAKE_CONTENT_TYPE {
        match parse_client_hello(initial) {
            ClientHelloStatus::Complete(parsed) => {
                let valid = dev_mode || validator.is_insecure_no_token() || validator.validate(&parsed);
                if valid {
                    ConnectionStep::Session(bytes_after_record(initial))
                } else {
                    ConnectionStep::Fallback
                }
            },
            ClientHelloStatus::NeedMoreData { expected_record_len } => {
                let missing = if expected_record_len > initial.len() {
                    expected_record_len - initial.len()
                } else {
                    0
                };
                let needed = if missing < MAX_CLIENT_HELLO_SIZE {
                    missing
                } else {
                    MAX_CLIENT_HELLO_SIZE
                };
                if after_read || needed == 0 {
                    ConnectionStep::Fallback
                } else {
                    ConnectionStep::ReadMore(needed)
                }
            },
            ClientHelloStatus::Invalid(_) => ConnectionStep::Fallback,
        }
    } else {
        let msg_len = initial_length(initial);
        if 32 <= msg_len && msg_len <= 128 {
            let mut all: Vec<u8> = Vec::new();
            crate::protocol::wire::put_slice(&mut all, initial);
            ConnectionStep::Session(all)
        } else {
            ConnectionStep::Fallback
        }
    }
}

/// A connection whose first read holds a complete ClientHello record that is
/// accepted goes to the Noise session with exactly the bytes that follow the
/// record (its 5-byte header and the body length it announces), in both
/// listeners: the hello itself is never replayed as Noise data, and nothing
/// the client sent after it is lost.
pub proof fn lemma_accepted_hello_replays_only_what_follows(
    initial: Seq<u8>,
    v: TokenValidator,
    dev_mode: bool,
    after_read: bool,
    insecure_no_token: bool,
)
    requires
        hello_spec(initial) matches HelloSpec::Complete { random, session_id, sni, .. } && (dev_mode
            || v.accepts_fields(random, session_id, sni)),
    ensures
        5 + be16_at(initial, 3) <= initial.len(),
        listener_step(initial, v, dev_mode, after_read) == StepSpec::Session(
            initial.subrange(5 + be16_at(initial, 3), initial.len() as int),
        ),
        routed_step(initial, v, dev_mode, insecure_no_token) == StepSpec::Session(
            initial.subrange(5 + be16_at(initial, 3), initial.len() as int),
        ),
{
    let consumed = 5 + be16_at(initial, 3);
    if initial.len() == consumed {
        assert(initial.subrange(consumed, initial.len() as int) =~= Seq::<u8>::empty());
    }
}

} // verus!
