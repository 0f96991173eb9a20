//! The relay's credentials and listener settings.
use vstd::prelude::*;

use crate::crypto::keys::{b64_encode_spec, base64_encode, generate_keypair, x25519_public_key, KeyPair};
use crate::crypto::keys::{opt_bytes, parse_saved_token_value, saved_token_of};
use crate::text::{
    ascii_chars, concat_text, debug_quoted, find_from, find_text, lemma_find_from, lemma_trim_idempotent, lossy_text,
    str_debug, str_from, str_trim_start, string_from_utf8_lossy, trim, trim_start,
};
use crate::transport::obfuscation::{hex_decode, hex_decode_bytes, hex_decode_safe, hex_text_is_safe};
use vstd::utf8::encode_utf8;
use vstd::string::StrSliceExecFns;
use crate::transport::obfuscation::{hex_bytes, hex_encode};

verus! {

/// The relay's credentials: the shared secret token, the Noise key pair, and
/// their text forms, with the relay's URL and the key file they came from.
/// There is no `Debug`: `debug_text` gives a rendering without the secrets.
#[derive(Clone, PartialEq, Eq)]
pub struct RelaySecrets {
    pub secret_token: Vec<u8>,
    pub secret_token_hex: String,
    pub public_key: Vec<u8>,
    pub public_key_hex: String,
    pub public_key_base64: String,
    pub private_key: Vec<u8>,
    pub private_key_hex: String,
    pub url: String,
    pub key_file: Option<String>,
}

/// The text forms of the secrets follow from their bytes: lower-case
/// hexadecimal for the token and both keys, Base64 for the public key.
pub open spec fn texts_match(s: RelaySecrets) -> bool {
    &&& s.secret_token_hex@ == ascii_chars(hex_bytes(s.secret_token@))
    &&& s.public_key_hex@ == ascii_chars(hex_bytes(s.public_key@))
    &&& s.private_key_hex@ == ascii_chars(hex_bytes(s.private_key@))
}

/// The URL of a relay bound to `bind_addr`.
pub open spec fn relay_url(bind_addr: Seq<char>) -> Seq<char> {
    "https://"@ + bind_addr
}

/// The rendering of the secrets for logs: URL, public key and key file, the
/// secret token and private key replaced by `[REDACTED]`.
pub open spec fn secrets_debug_text(s: RelaySecrets) -> Seq<char> {
    "RelaySecrets { url: "@ + debug_quoted(s.url@) + ", public_key_hex: "@ + debug_quoted(s.public_key_hex@)
        + ", public_key_base64: "@ + debug_quoted(s.public_key_base64@)
        + ", secret_token: \"[REDACTED]\", private_key: \"[REDACTED]\", key_file: "@ + match s.key_file {
        Some(k) => "Some("@ + debug_quoted(k@) + ")"@,
        None => "None"@,
    } + " }"@
}

/// The one-line description of the relay: its URL and public key.
pub open spec fn secrets_display_text(s: RelaySecrets) -> Seq<char> {
    "EchoMesh Relay: "@ + s.url@ + " (public key: "@ + s.public_key_base64@ + ")"@
}

/// The token to use: the configured one unless it is absent or empty.
pub open spec fn chosen_token(configured: Option<Vec<u8>>) -> Option<Seq<u8>> {
    match configured {
        Some(t) => if t@.len() > 0 { Some(t@) } else { None },
        None => None,
    }
}

impl RelaySecrets {
    /// Credentials from a token and a key pair, with their text forms.
    pub fn new(secret_token: Vec<u8>, public_key: Vec<u8>, private_key: Vec<u8>, url: String) -> (r: Self)
        ensures
            r.secret_token@ == secret_token@,
            r.public_key@ == public_key@,
            r.private_key@ == private_key@,
            r.url@ == url@,
            texts_match(r),
            r.public_key_base64@ == ascii_chars(b64_encode_spec(public_key@)),
            r.key_file is None,
    {
        let secret_token_hex = hex_encode(secret_token.as_slice());
        let public_key_hex = hex_encode(public_key.as_slice());
        let public_key_base64 = base64_encode(public_key.as_slice());
        let private_key_hex = hex_encode(private_key.as_slice());
        RelaySecrets {
            secret_token,
            secret_token_hex,
            public_key,
            public_key_hex,
            public_key_base64,
            private_key,
            private_key_hex,
            url,
            key_file: None,
        }
    }

    /// Credentials of a stored key pair and a chosen token, for a relay bound
    /// to `bind_addr`: the key pair's own Base64 text and key file are kept.
    pub fn from_keypair_and_token(bind_addr: &str, keypair: KeyPair, token: Vec<u8>) -> (r: Self)
        ensures
            r.secret_token@ == token@,
            r.public_key@ == keypair.public_key@,
            r.private_key@ == keypair.private_key@,
            r.public_key_base64@ == keypair.public_key_base64@,
            r.url@ == relay_url(bind_addr@),
            texts_match(r),
            r.key_file matches Some(k) && k@ == keypair.key_path@,
    {
        let url = concat_text("https://", bind_addr);
        let mut secrets = RelaySecrets::new(token, keypair.public_key, keypair.private_key, url);
        secrets.public_key_base64 = keypair.public_key_base64;
        secrets.key_file = Some(keypair.key_path);
        secrets
    }

    /// Fresh credentials for a relay bound to `bind_addr`: a new random key
    /// pair, and the given token unless it is absent or empty, in which case
    /// the public half of another random key pair.
    pub fn generate(bind_addr: &str, secret_token: Option<Vec<u8>>) -> (r: Result<Self, snow::Error>)
        ensures
            r matches Ok(s) ==> {
                &&& s.url@ == relay_url(bind_addr@)
                &&& s.private_key@.len() == 32
                &&& s.public_key@ == x25519_public_key(s.private_key@)
                &&& texts_match(s)
                &&& s.public_key_base64@ == ascii_chars(b64_encode_spec(s.public_key@))
                &&& s.key_file is None
                &&& match chosen_token(secret_token) {
                    Some(t) => s.secret_token@ == t,
                    None => s.secret_token@.len() == 32,
                }
            },
    {
        let (private_key, public_key) = match generate_keypair() {
            Ok(pair) => pair,
            Err(e) => return Err(e),
        };
        let token = match Self::token_or_random(secret_token) {
            Ok(t) => t,
            Err(e) => return Err(e),
        };
        let url = concat_text("https://", bind_addr);
        Ok(RelaySecrets::new(token, public_key, private_key, url))
    }

    /// The configured token when present and non-empty, else the public half
    /// of a fresh random key pair.
    pub fn token_or_random(secret_token: Option<Vec<u8>>) -> (r: Result<Vec<u8>, snow::Error>)
        ensures
            chosen_token(secret_token) matches Some(t) ==> (r matches Ok(v) && v@ == t),
            chosen_token(secret_token) is None ==> (r matches Ok(v) ==> v@.len() == 32),
    {
        match secret_token {
            Some(t) => {
                if t.len() > 0 {
                    return Ok(t);
                }
            },
            None => {},
        }
        match generate_keypair() {
            Ok((_, public)) => Ok(public),
            Err(e) => Err(e),
        }
    }

    /// Credentials of a stored key pair for a relay bound to `bind_addr`,
    /// with the given token unless it is absent or empty, in which case the
    /// public half of a fresh random key pair.
    pub fn from_keypair(bind_addr: &str, keypair: KeyPair, secret_token: Option<Vec<u8>>) -> (r: Result<Self, snow::Error>)
        ensures
            r matches Ok(s) ==> {
                &&& s.public_key@ == keypair.public_key@
                &&& s.private_key@ == keypair.private_key@
                &&& s.public_key_base64@ == keypair.public_key_base64@
                &&& s.url@ == relay_url(bind_addr@)
                &&& texts_match(s)
                &&& s.key_file matches Some(k) && k@ == keypair.key_path@
                &&& match chosen_token(secret_token) {
                    Some(t) => s.secret_token@ == t,
                    None => s.secret_token@.len() == 32,
                }
            },
            chosen_token(secret_token) is Some ==> r is Ok,
    {
        let token = match Self::token_or_random(secret_token) {
            Ok(t) => t,
            Err(e) => return Err(e),
        };
        Ok(Self::from_keypair_and_token(bind_addr, keypair, token))
    }

    /// A rendering for logs that leaves the secret token and the private key out.
    pub fn debug_text(&self) -> (r: String)
        ensures
            r@ == secrets_debug_text(*self),
    {
        let a = concat_text("RelaySecrets { url: ", str_debug(self.url.as_str()).as_str());
        let b = concat_text(a.as_str(), ", public_key_hex: ");
        let c = concat_text(b.as_str(), str_debug(self.public_key_hex.as_str()).as_str());
        let d = concat_text(c.as_str(), ", public_key_base64: ");
        let e = concat_text(d.as_str(), str_debug(self.public_key_base64.as_str()).as_str());
        let f = concat_text(
            e.as_str(),
            ", secret_token: \"[REDACTED]\", private_key: \"[REDACTED]\", key_file: ",
        );
        let g = match &self.key_file {
            Some(k) => {
                let h = concat_text(f.as_str(), "Some(");
                let i = concat_text(h.as_str(), str_debug(k.as_str()).as_str());
                concat_text(i.as_str(), ")")
            },
            None => concat_text(f.as_str(), "None"),
        };
        let r = concat_text(g.as_str(), " }");
        proof {
            assert(r@ =~= secrets_debug_text(*self));
        }
        r
    }

    /// The one-line description of the relay: its URL and public key.
    pub fn display_text(&self) -> (r: String)
        ensures
            r@ == secrets_display_text(*self),
    {
        let a = concat_text("EchoMesh Relay: ", self.url.as_str());
        let b = concat_text(a.as_str(), " (public key: ");
        let c = concat_text(b.as_str(), self.public_key_base64.as_str());
        let r = concat_text(c.as_str(), ")");
        proof {
            assert(r@ =~= secrets_display_text(*self));
        }
        r
    }
}

/// Neither rendering of the credentials shows the secret token or the
/// private key: credentials that differ only there render alike.
pub proof fn lemma_renderings_hide_secrets(a: RelaySecrets, b: RelaySecrets)
    requires
        a.url@ == b.url@,
        a.public_key_hex@ == b.public_key_hex@,
        a.public_key_base64@ == b.public_key_base64@,
        crate::text::opt_text(a.key_file) == crate::text::opt_text(b.key_file),
    ensures
        secrets_debug_text(a) == secrets_debug_text(b),
        secrets_display_text(a) == secrets_display_text(b),
{
}

/// The marker of the hexadecimal token in the relay JSON file.
pub open spec fn token_marker() -> Seq<char> {
    "\"secret_token_hex\""@
}

/// The text of the token value in a relay JSON file: after the first marker,
/// its colon and any whitespace, a double quote opens the value, which runs
/// to the next double quote or to the end.
pub open spec fn marked_token_value(content: Seq<char>) -> Option<Seq<char>> {
    match find_from(content, token_marker(), 0) {
        None => None,
        Some(m) => {
            let tail = content.subrange(m + token_marker().len(), content.len() as int);
            match find_from(tail, ":"@, 0) {
                None => None,
                Some(c) => {
                    let after = trim_start(tail.subrange(c + 1, tail.len() as int));
                    if after.len() > 0 && after[0] == '"' {
                        let v = after.subrange(1, after.len() as int);
                        match find_from(v, "\""@, 0) {
                            Some(e) => Some(v.subrange(0, e)),
                            None => Some(v),
                        }
                    } else {
                        None
                    }
                },
            }
        },
    }
}

/// The token the relay JSON file gives: the hexadecimal decoding of the
/// marked value, when it decodes to something.
pub open spec fn marked_json_token(content: Seq<char>) -> Option<Seq<u8>> {
    match marked_token_value(content) {
        Some(v) => match hex_decode_bytes(encode_utf8(trim(v))) {
            Some(d) => if d.len() > 0 { Some(d) } else { None },
            None => None,
        },
        None => None,
    }
}

/// The saved token: from the relay JSON file, else from the token file's text.
pub open spec fn stored_token(json: Option<Seq<char>>, token_file: Option<Seq<u8>>) -> Option<Seq<u8>> {
    let from_json = match json {
        Some(c) => marked_json_token(c),
        None => None,
    };
    match from_json {
        Some(t) => Some(t),
        None => match token_file {
            Some(raw) => saved_token_of(lossy_text(raw)),
            None => None,
        },
    }
}

/// Every text `stored_token` decodes as hexadecimal can be decoded without cutting a character.
pub open spec fn stored_token_safe(json: Option<Seq<char>>, token_file: Option<Seq<u8>>) -> bool {
    let from_json = match json {
        Some(c) => marked_json_token(c),
        None => None,
    };
    &&& json matches Some(c) ==> (marked_token_value(c) matches Some(v) ==> hex_decode_safe(v))
    &&& from_json is None ==> (token_file matches Some(raw) ==> hex_decode_safe(trim(lossy_text(raw))))
}

/// The value marked in the relay JSON text the relay writes is the token's
/// hexadecimal text.
#[verifier::spinoff_prover]
#[verifier::rlimit(40)]
proof fn lemma_marked_value_of_relay_json(b64: Seq<char>, token: Seq<u8>)
    requires
        token.len() > 0,
        forall|i: int| 0 <= i < b64.len() ==> crate::crypto::keys::is_base64_char(#[trigger] b64[i]),
    ensures
        marked_token_value(crate::crypto::keys::relay_json_text(b64, crate::crypto::keys::token_hex_text(token)))
            == Some(crate::crypto::keys::token_hex_text(token)),
{
    reveal_strlit("\"");
    reveal_strlit(":");
    reveal_strlit(": \"");
    reveal_strlit(" \"");
    reveal_strlit("\"\n}\n");
    reveal_strlit("\"secret_token_hex\"");
    let h = crate::crypto::keys::token_hex_text(token);
    crate::crypto::keys::lemma_token_hex_digits(token);
    crate::crypto::keys::lemma_relay_json_key_position(b64, h);
    let c = crate::crypto::keys::relay_json_text(b64, h);
    let p0: int = 31 + b64.len() as int;
    let marker = token_marker();
    assert(marker.len() == 18);
    let tail = c.subrange(p0 + 18, c.len() as int);
    assert(tail == ": \""@ + h + "\"\n}\n"@);
    assert(tail.subrange(0, 1) =~= ":"@);
    crate::text::lemma_find_first(tail, ":"@, 0, 0);
    let spaced = tail.subrange(1, tail.len() as int);
    assert(spaced =~= " \""@ + h + "\"\n}\n"@);
    assert(crate::text::is_white_space(spaced[0]));
    let after = spaced.drop_first();
    assert(after =~= "\""@ + h + "\"\n}\n"@);
    assert(!crate::text::is_white_space(after[0]));
    assert(trim_start(after) == after);
    assert(trim_start(spaced) == trim_start(after));
    let v = after.subrange(1, after.len() as int);
    assert(v =~= h + "\"\n}\n"@);
    assert(v.subrange(h.len() as int, h.len() + 1 as int) =~= "\""@);
    assert forall|j: int| 0 <= j < h.len() implies #[trigger] v.subrange(j, j + 1) != "\""@ by {
        assert(v.subrange(j, j + 1)[0] == h[j]);
    }
    crate::text::lemma_find_first(v, "\""@, 0, h.len() as int);
    assert(v.subrange(0, h.len() as int) =~= h);
}

/// The token file the relay writes, the token's hexadecimal text on a line,
/// reads back as the token.
#[verifier::spinoff_prover]
proof fn lemma_token_line_reads_back(token: Seq<u8>)
    requires
        token.len() > 0,
    ensures
        hex_decode_safe(trim(lossy_text(encode_utf8(crate::crypto::keys::token_hex_text(token) + "\n"@)))),
        saved_token_of(lossy_text(encode_utf8(crate::crypto::keys::token_hex_text(token) + "\n"@))) == Some(token),
{
    reveal_strlit("\n");
    let h = crate::crypto::keys::token_hex_text(token);
    crate::crypto::keys::lemma_token_hex_digits(token);
    crate::transport::obfuscation::lemma_hex_roundtrip(token);
    crate::crypto::keys::lemma_hex_line_trims(h);
    let raw = encode_utf8(h + "\n"@);
    vstd::utf8::encode_utf8_valid_utf8(h + "\n"@);
    vstd::utf8::encode_utf8_decode_utf8(h + "\n"@);
    assert(lossy_text(raw) == h + "\n"@);
    assert(saved_token_of(h + "\n"@) == Some(token));
}

/// The token the relay records is the token it reads back when it loads its
/// credentials: from the relay JSON file it writes (with a Base64 public
/// key), whatever the token file holds, and from the token file alone (the
/// token's hexadecimal text on a line). Neither read can fail on a
/// character boundary.
pub proof fn lemma_stored_token_round_trip(b64: Seq<char>, token: Seq<u8>, token_file: Option<Seq<u8>>)
    requires
        token.len() > 0,
        forall|i: int| 0 <= i < b64.len() ==> crate::crypto::keys::is_base64_char(#[trigger] b64[i]),
    ensures
        stored_token_safe(
            Some(crate::crypto::keys::relay_json_text(b64, crate::crypto::keys::token_hex_text(token))),
            token_file,
        ),
        stored_token(
            Some(crate::crypto::keys::relay_json_text(b64, crate::crypto::keys::token_hex_text(token))),
            token_file,
        ) == Some(token),
        stored_token_safe(None, Some(encode_utf8(crate::crypto::keys::token_hex_text(token) + "\n"@))),
        stored_token(None, Some(encode_utf8(crate::crypto::keys::token_hex_text(token) + "\n"@))) == Some(token),
{
    let h = crate::crypto::keys::token_hex_text(token);
    crate::crypto::keys::lemma_token_hex_digits(token);
    crate::transport::obfuscation::lemma_hex_roundtrip(token);
    crate::crypto::keys::lemma_hex_line_trims(h);
    lemma_marked_value_of_relay_json(b64, token);
    lemma_token_line_reads_back(token);
    let c = crate::crypto::keys::relay_json_text(b64, h);
    assert(marked_json_token(c) == Some(token));
}

/// The marked token value of a relay JSON file, by `marked_token_value`.
fn token_value_text(content: &str) -> (r: Option<String>)
    ensures
        match r {
            Some(v) => marked_token_value(content@) == Some(v@),
            None => marked_token_value(content@) is None,
        },
{
    let marker = "\"secret_token_hex\"";
    let m = match find_text(content, marker) {
        Some(m) => m,
        None => return None,
    };
    proof {
        lemma_find_from(content@, marker@, 0);
    }
    let marker_len = marker.unicode_len();
    let content_len = content.unicode_len();
    assert(m + marker_len <= content_len);
    let tail = str_from(content, m + marker_len);
    let c = match find_text(tail.as_str(), ":") {
        Some(c) => c,
        None => return None,
    };
    proof {
        lemma_find_from(tail@, ":"@, 0);
        reveal_strlit(":");
    }
    let tail_len = tail.as_str().unicode_len();
    assert(c + 1 <= tail_len);
    let rest = str_from(tail.as_str(), c + 1);
    let after = str_trim_start(rest.as_str());
    let after_len = after.unicode_len();
    if after_len == 0 || after.get_char(0) != '"' {
        return None;
    }
    let v = str_from(after, 1);
    match find_text(v.as_str(), "\"") {
        Some(e) => {
            proof {
                lemma_find_from(v@, "\""@, 0);
                reveal_strlit("\"");
            }
            Some(v.as_str().substring_char(0, e).to_string())
        },
        None => Some(v),
    }
}

/// The token saved by an earlier run, read from the contents of the relay
/// JSON file and of the token file (each `None` when it could not be read),
/// by `stored_token`. `None` when decoding a text as hexadecimal would cut
/// a pair it reaches across a character boundary.
pub fn read_saved_token(json: Option<&str>, token_file: Option<&[u8]>) -> (r: Option<Option<Vec<u8>>>)
    ensures
        r is None <==> !stored_token_safe(
            match json {
                Some(c) => Some(c@),
                None => None,
            },
            match token_file {
                Some(b) => Some(b@),
                None => None,
            },
        ),
        r matches Some(t) ==> opt_bytes(t) == stored_token(
            match json {
                Some(c) => Some(c@),
                None => None,
            },
            match token_file {
                Some(b) => Some(b@),
                None => None,
            },
        ),
{
    match json {
        Some(content) => match token_value_text(content) {
            Some(value) => {
                if !hex_text_is_safe(value.as_str()) {
                    return None;
                }
                match hex_decode(value.as_str()) {
                    Some(decoded) => {
                        if decoded.len() > 0 {
                            return Some(Some(decoded));
                        }
                    },
                    None => {},
                }
            },
            None => {},
        },
        None => {},
    }
    match token_file {
        Some(raw) => {
            let text = string_from_utf8_lossy(raw);
            proof {
                lemma_trim_idempotent(text@);
            }
            if !hex_text_is_safe(text.as_str()) {
                return None;
            }
            Some(parse_saved_token_value(text.as_str()))
        },
        None => Some(None),
    }
}

/// `Duration::clone`: `Duration` is `Copy`, and its clone is the same span.
pub assume_specification[ <core::time::Duration as core::clone::Clone>::clone ](d: &core::time::Duration) -> (r:
    core::time::Duration)
    ensures
        r == *d,
;

/// The span of `secs` whole seconds.
pub uninterp spec fn seconds(secs: u64) -> std::time::Duration;

/// `Duration::from_secs(secs)`: a span of `secs` whole seconds.
#[verifier::external_body]
fn duration_from_secs(secs: u64) -> (r: std::time::Duration)
    ensures
        r == seconds(secs),
{
    std::time::Duration::from_secs(secs)
}

/// Settings of a relay listener; `A` is the type of the address it binds.
#[derive(Clone)]
pub struct ListenerConfig<A> {
    pub bind_addr: A,
    pub max_connections: usize,
    pub fallback_target: String,
    pub secret_token: Vec<u8>,
    pub handshake_timeout: std::time::Duration,
    pub secrets: RelaySecrets,
    pub insecure_no_token: bool,
}

/// A fresh vector with the same bytes.
fn copy_token(b: &Vec<u8>) -> (r: Vec<u8>)
    ensures
        r@ == b@,
{
    let mut out: Vec<u8> = Vec::new();
    crate::protocol::wire::put_slice(&mut out, b.as_slice());
    out
}

impl<A> ListenerConfig<A> {
    /// The defaults around given credentials: at most 1024 connections,
    /// fallback to `cloudflare.com:443`, a 5-second handshake timeout, the
    /// credentials' token, and token checks on.
    pub fn new_with_secrets(bind_addr: A, secrets: RelaySecrets) -> (r: Self)
        ensures
            r.bind_addr == bind_addr,
            r.max_connections == 1024,
            r.fallback_target@ == "cloudflare.com:443"@,
            r.secret_token@ == secrets.secret_token@,
            r.handshake_timeout == seconds(5),
            r.secrets == secrets,
            !r.insecure_no_token,
    {
        let secret_token = copy_token(&secrets.secret_token);
        ListenerConfig {
            bind_addr,
            max_connections: 1024,
            fallback_target: "cloudflare.com:443".to_string(),
            secret_token,
            handshake_timeout: duration_from_secs(5),
            secrets,
            insecure_no_token: false,
        }
    }

    /// Uses other credentials, and their token.
    pub fn with_secrets(self, secrets: RelaySecrets) -> (r: Self)
        ensures
            r.secret_token@ == secrets.secret_token@,
            r.secrets == secrets,
            r.bind_addr == self.bind_addr && r.max_connections == self.max_connections
                && r.fallback_target == self.fallback_target && r.handshake_timeout == self.handshake_timeout
                && r.insecure_no_token == self.insecure_no_token,
    {
        let secret_token = copy_token(&secrets.secret_token);
        ListenerConfig { secret_token, secrets, ..self }
    }

    pub fn with_fallback_target(self, target: String) -> (r: Self)
        ensures
            r.fallback_target == target,
            r.bind_addr == self.bind_addr && r.max_connections == self.max_connections
                && r.secret_token == self.secret_token && r.handshake_timeout == self.handshake_timeout
                && r.secrets == self.secrets && r.insecure_no_token == self.insecure_no_token,
    {
        ListenerConfig { fallback_target: target, ..self }
    }

    /// Sets the connection limit; a limit of 0 becomes 1.
    pub fn with_max_connections(self, max: usize) -> (r: Self)
        ensures
            r.max_connections == (if max >= 1 { max } else { 1 }),
            r.bind_addr == self.bind_addr && r.fallback_target == self.fallback_target
                && r.secret_token == self.secret_token && r.handshake_timeout == self.handshake_timeout
                && r.secrets == self.secrets && r.insecure_no_token == self.insecure_no_token,
    {
        let limit = if max >= 1 { max } else { 1 };
        ListenerConfig { max_connections: limit, ..self }
    }

    pub fn with_handshake_timeout(self, timeout: std::time::Duration) -> (r: Self)
        ensures
            r.handshake_timeout == timeout,
            r.bind_addr == self.bind_addr && r.max_connections == self.max_connections
                && r.fallback_target == self.fallback_target && r.secret_token == self.secret_token
                && r.secrets == self.secrets && r.insecure_no_token == self.insecure_no_token,
    {
        ListenerConfig { handshake_timeout: timeout, ..self }
    }

    pub fn with_insecure_no_token(self, enabled: bool) -> (r: Self)
        ensures
            r.insecure_no_token == enabled,
            r.bind_addr == self.bind_addr && r.max_connections == self.max_connections
                && r.fallback_target == self.fallback_target && r.secret_token == self.secret_token
                && r.handshake_timeout == self.handshake_timeout && r.secrets == self.secrets,
    {
        ListenerConfig { insecure_no_token: enabled, ..self }
    }

    /// The same as `with_insecure_no_token`.
    pub fn with_insecure_no_auth(self, enabled: bool) -> (r: Self)
        ensures
            r.insecure_no_token == enabled,
            r.bind_addr == self.bind_addr && r.max_connections == self.max_connections
                && r.fallback_target == self.fallback_target && r.secret_token == self.secret_token
                && r.handshake_timeout == self.handshake_timeout && r.secrets == self.secrets,
    {
        self.with_insecure_no_token(enabled)
    }
}

} // verus!
