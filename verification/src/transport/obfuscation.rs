//! Pseudo-TLS camouflage: a ClientHello parser that tolerates fragmented
//! records, the challenge-response check of the cover proof, and the builder
//! of camouflaged ClientHello records.
use vstd::prelude::*;
use vstd::utf8::{decode_utf8, valid_utf8};

use vstd::utf8::{encode_utf8, is_continuation_byte};

use crate::protocol::wire::{be16_at, be16_bytes, copy_range, get_u16, put_slice, put_u16};
use crate::text::{
    bool_string, bool_text, concat_text, debug_quoted, decimal_string, decimal_text, str_debug,
    ascii_bytes_to_string, ascii_chars, ascii_lower, opt_text, str_trim, to_ascii_lowercase, trim,
    utf8_to_string,
};
use hmac::Mac;
use rand::RngCore;

verus! {

type HmacSha256 = hmac::Hmac<sha2::Sha256>;

pub const MAX_CLIENT_HELLO_SIZE: usize = 4096;
pub const TLS_HANDSHAKE_CONTENT_TYPE: u8 = 0x16;
pub const TLS_CLIENT_HELLO_HANDSHAKE_TYPE: u8 = 0x01;
pub const TLS_LEGACY_RECORD_VERSION: u16 = 0x0301;
pub const TLS_LEGACY_CLIENT_VERSION: u16 = 0x0303;
pub const TLS_1_3_VERSION: u16 = 0x0304;
pub const TLS_EXT_SERVER_NAME: u16 = 0x0000;
pub const TLS_EXT_SUPPORTED_GROUPS: u16 = 0x000a;
pub const TLS_EXT_SIGNATURE_ALGORITHMS: u16 = 0x000d;
pub const TLS_EXT_SUPPORTED_VERSIONS: u16 = 0x002b;
pub const TLS_EXT_KEY_SHARE: u16 = 0x0033;
pub const TLS_AES_128_GCM_SHA256: u16 = 0x1301;
pub const TLS_AES_256_GCM_SHA384: u16 = 0x1302;
pub const TLS_CHACHA20_POLY1305_SHA256: u16 = 0x1303;

/// Domain-separation prefix of the cover proof: the ASCII text
/// "EchoMesh pseudo-TLS auth v1".
pub open spec fn cover_auth_context_spec() -> Seq<u8> {
    seq![0x45u8, 0x63u8, 0x68u8, 0x6fu8, 0x4du8, 0x65u8, 0x73u8, 0x68u8, 0x20u8, 0x70u8, 0x73u8, 0x65u8, 0x75u8, 0x64u8, 0x6fu8, 0x2du8, 0x54u8, 0x4cu8, 0x53u8, 0x20u8, 0x61u8, 0x75u8, 0x74u8, 0x68u8, 0x20u8, 0x76u8, 0x31u8]
}

/// The domain-separation prefix of the cover proof.
pub fn cover_auth_context() -> (r: Vec<u8>)
    ensures
        r@ == cover_auth_context_spec(),
{
    let v: Vec<u8> = vec![0x45u8, 0x63u8, 0x68u8, 0x6fu8, 0x4du8, 0x65u8, 0x73u8, 0x68u8, 0x20u8, 0x70u8, 0x73u8, 0x65u8, 0x75u8, 0x64u8, 0x6fu8, 0x2du8, 0x54u8, 0x4cu8, 0x53u8, 0x20u8, 0x61u8, 0x75u8, 0x74u8, 0x68u8, 0x20u8, 0x76u8, 0x31u8];
    assert(v@ =~= cover_auth_context_spec());
    v
}

/// The 32-byte HMAC-SHA256 tag of `msg` under `key` (a key of any length).
pub uninterp spec fn hmac_sha256(key: Seq<u8>, msg: Seq<u8>) -> Seq<u8>;

/// `Hmac::<Sha256>::new_from_slice(key)`, `update(msg)`, `finalize()`: the
/// 32-byte tag of `msg` under `key`. HMAC accepts keys of every length, so the
/// key setup cannot fail (the crate's `new_from_slice` for HMAC always returns `Ok`).
#[verifier::external_body]
fn hmac_sha256_tag(key: &[u8], msg: &[u8]) -> (r: [u8; 32])
    ensures
        r@ == hmac_sha256(key@, msg@),
{
    let mut mac = <HmacSha256 as Mac>::new_from_slice(key).expect("HMAC accepts arbitrary key lengths");
    mac.update(msg);
    mac.finalize().into_bytes().into()
}

/// `Hmac::<Sha256>` keyed with `key`, fed `msg`, then `verify_slice(tag)`: accepts
/// exactly when `tag` is the HMAC-SHA256 tag of `msg` (the crate compares
/// lengths first, then all bytes in constant time).
#[verifier::external_body]
fn hmac_sha256_verify(key: &[u8], msg: &[u8], tag: &[u8]) -> (r: bool)
    ensures
        r == (tag@ == hmac_sha256(key@, msg@)),
{
    match <HmacSha256 as Mac>::new_from_slice(key) {
        Ok(mut mac) => {
            mac.update(msg);
            mac.verify_slice(tag).is_ok()
        },
        Err(_) => false,
    }
}

/// `rand::thread_rng().fill_bytes(..)` on 32 bytes: fresh random bytes, of
/// which nothing is promised.
#[verifier::external_body]
fn random_32_bytes() -> (r: [u8; 32]) {
    let mut bytes = [0u8; 32];
    rand::thread_rng().fill_bytes(&mut bytes);
    bytes
}

/// Why a packet is not an acceptable ClientHello.
#[derive(Debug, Clone, Copy, PartialEq, Eq)]
pub enum ObfuscationError {
    BufferTooShort,
    NotTlsHandshake,
    NotClientHello,
    MalformedData,
    PacketTooLarge,
}

/// The fields of a parsed TLS ClientHello that the relay looks at.
#[derive(Clone, PartialEq, Eq)]
pub struct ParsedClientHello {
    pub legacy_version: u16,
    pub random: [u8; 32],
    pub session_id: Vec<u8>,
    pub cipher_suites: Vec<u16>,
    pub sni: Option<String>,
    pub is_tls13: bool,
}

impl ParsedClientHello {
    /// The rendering for logs: the version in hexadecimal, the random and the
    /// session id replaced by `[REDACTED]`, and only the number of cipher suites.
    pub open spec fn debug_view(&self) -> Seq<char> {
        "ParsedClientHello { legacy_version: 0x"@
            + ascii_chars(hex_bytes(seq![(self.legacy_version / 256) as u8, (self.legacy_version % 256) as u8]))
            + ", random: \"[REDACTED]\", session_id: \"[REDACTED]\", cipher_suites_count: "@
            + decimal_text(self.cipher_suites.len() as nat) + ", sni: "@ + match self.sni {
            Some(t) => "Some("@ + debug_quoted(t@) + ")"@,
            None => "None"@,
        } + ", is_tls13: "@ + bool_text(self.is_tls13) + " }"@
    }

    /// A rendering for logs that leaves the random and the session id out.
    pub fn debug_text(&self) -> (r: String)
        ensures
            r@ == self.debug_view(),
    {
        let version = [(self.legacy_version / 256) as u8, (self.legacy_version % 256) as u8];
        let a = concat_text("ParsedClientHello { legacy_version: 0x", hex_encode(&version).as_str());
        let b = concat_text(a.as_str(), ", random: \"[REDACTED]\", session_id: \"[REDACTED]\", cipher_suites_count: ");
        let count = self.cipher_suites.len() as u64;
        let c = concat_text(b.as_str(), decimal_string(count).as_str());
        let d = concat_text(c.as_str(), ", sni: ");
        let e = match &self.sni {
            Some(t) => {
                let f = concat_text(d.as_str(), "Some(");
                let g = concat_text(f.as_str(), str_debug(t.as_str()).as_str());
                concat_text(g.as_str(), ")")
            },
            None => concat_text(d.as_str(), "None"),
        };
        let h = concat_text(e.as_str(), ", is_tls13: ");
        let i = concat_text(h.as_str(), bool_string(self.is_tls13).as_str());
        let r = concat_text(i.as_str(), " }");
        proof {
            assert(version@ =~= seq![(self.legacy_version / 256) as u8, (self.legacy_version % 256) as u8]);
            assert(r@ =~= self.debug_view());
        }
        r
    }
}

/// The outcome of parsing a (possibly incomplete) ClientHello record.
#[derive(PartialEq, Eq)]
pub enum ClientHelloStatus {
    Complete(ParsedClientHello),
    NeedMoreData { expected_record_len: usize },
    Invalid(ObfuscationError),
}

/// The outcome of parsing, over mathematical values.
pub enum HelloSpec {
    Complete {
        legacy_version: u16,
        random: Seq<u8>,
        session_id: Seq<u8>,
        cipher_suites: Seq<u16>,
        sni: Option<Seq<char>>,
        is_tls13: bool,
    },
    NeedMoreData { expected_record_len: int },
    Invalid(ObfuscationError),
}

/// A parse status over mathematical values.
pub open spec fn status_view(r: ClientHelloStatus) -> HelloSpec {
    match r {
        ClientHelloStatus::Complete(p) => HelloSpec::Complete {
            legacy_version: p.legacy_version,
            random: p.random@,
            session_id: p.session_id@,
            cipher_suites: p.cipher_suites@,
            sni: opt_text(p.sni),
            is_tls13: p.is_tls13,
        },
        ClientHelloStatus::NeedMoreData { expected_record_len } => HelloSpec::NeedMoreData {
            expected_record_len: expected_record_len as int,
        },
        ClientHelloStatus::Invalid(e) => HelloSpec::Invalid(e),
    }
}

pub open spec fn malformed() -> HelloSpec {
    HelloSpec::Invalid(ObfuscationError::MalformedData)
}

/// The 16-bit values of the `count` big-endian pairs starting at `p`.
pub open spec fn u16_list(s: Seq<u8>, p: int, count: int) -> Seq<u16> {
    Seq::new(count as nat, |k: int| be16_at(s, p + 2 * k))
}

/// Whether one of the `count` big-endian pairs starting at `p` is TLS 1.3.
pub open spec fn lists_tls13(s: Seq<u8>, p: int, count: int) -> bool {
    exists|k: int| 0 <= k < count && #[trigger] be16_at(s, p + 2 * k) == TLS_1_3_VERSION
}

/// The host name carried by a server_name extension whose data is `s[p..p + l]`,
/// when it is a host name entry (type 0) that is complete and valid UTF-8.
pub open spec fn sni_of(s: Seq<u8>, p: int, l: int) -> Option<Seq<char>> {
    let n = s.len();
    let name_type = s[p + 2];
    let name_len = be16_at(s, p + 3) as int;
    let name = s.subrange(p + 5, p + 5 + name_len);
    if l >= 5 && name_type == 0 && l - 5 >= name_len && valid_utf8(name) {
        Some(ascii_lower(decode_utf8(name)))
    } else {
        None
    }
}

/// Whether a supported_versions extension whose data is `s[p..p + l]` offers TLS 1.3.
pub open spec fn offers_tls13_spec(s: Seq<u8>, p: int, l: int) -> bool {
    let vl = s[p] as int;
    l > 0 && l - 1 >= vl && lists_tls13(s, p + 1, vl / 2)
}

/// Scans the extensions in `s[q..end]`, updating the server name and the
/// TLS 1.3 flag; `None` when an extension runs past the end of the block.
pub open spec fn scan_extensions(s: Seq<u8>, q: int, end: int, sni: Option<Seq<char>>, tls13: bool) -> Option<
    (Option<Seq<char>>, bool),
>
    decreases end - q,
{
    if end - q < 4 {
        Some((sni, tls13))
    } else {
        let ty = be16_at(s, q);
        let l = be16_at(s, q + 2) as int;
        if end - (q + 4) < l {
            None
        } else {
            let sni2 = if ty == TLS_EXT_SERVER_NAME && l >= 5 {
                match sni_of(s, q + 4, l) {
                    Some(h) => Some(h),
                    None => sni,
                }
            } else {
                sni
            };
            let tls2 = if ty == TLS_EXT_SUPPORTED_VERSIONS && l > 0 {
                tls13 || offers_tls13_spec(s, q + 4, l)
            } else {
                tls13
            };
            scan_extensions(s, q + 4 + l, end, sni2, tls2)
        }
    }
}

/// Parsing the handshake body `s[start..end]` of a ClientHello.
pub open spec fn hello_body_spec(s: Seq<u8>, start: int, end: int) -> HelloSpec {
    if end - start < 34 {
        malformed()
    } else {
        let p = start + 34;
        if p >= end {
            malformed()
        } else {
            let sid_len = s[p] as int;
            if end - (p + 1) < sid_len {
                malformed()
            } else {
                let p2 = p + 1 + sid_len;
                if end - p2 < 2 {
                    malformed()
                } else {
                    let cs_len = be16_at(s, p2) as int;
                    let p3 = p2 + 2;
                    if end - p3 < cs_len || cs_len % 2 != 0 {
                        malformed()
                    } else {
                        let p4 = p3 + cs_len;
                        if p4 >= end {
                            malformed()
                        } else {
                            let comp = s[p4] as int;
                            let p5 = p4 + 1;
                            if end - p5 < comp {
                                malformed()
                            } else {
                                let p6 = p5 + comp;
                                let found = if end - p6 >= 2 {
                                    let ext_len = be16_at(s, p6) as int;
                                    let p7 = p6 + 2;
                                    if end - p7 < ext_len {
                                        None
                                    } else {
                                        scan_extensions(s, p7, p7 + ext_len, None, false)
                                    }
                                } else {
                                    Some((None, false))
                                };
                                match found {
                                    None => malformed(),
                                    Some((sni, is_tls13)) => HelloSpec::Complete {
                                        legacy_version: be16_at(s, start),
                                        random: s.subrange(start + 2, start + 34),
                                        session_id: s.subrange(p + 1, p2),
                                        cipher_suites: u16_list(s, p3, cs_len / 2),
                                        sni,
                                        is_tls13,
                                    },
                                }
                            }
                        }
                    }
                }
            }
        }
    }
}

/// The length of a TLS record whose header is at the start of `s`, header included.
pub open spec fn record_total_len(s: Seq<u8>) -> int {
    5 + be16_at(s, 3) as int
}

/// The 24-bit handshake length field at `i`.
pub open spec fn be24_at(s: Seq<u8>, i: int) -> int {
    (s[i] as int) * 65536 + (s[i + 1] as int) * 256 + (s[i + 2] as int)
}

/// Parsing a buffer that should start with a TLS record holding a ClientHello.
pub open spec fn hello_spec(s: Seq<u8>) -> HelloSpec {
    if s.len() < 5 {
        HelloSpec::NeedMoreData { expected_record_len: 5 }
    } else if s[0] != TLS_HANDSHAKE_CONTENT_TYPE {
        HelloSpec::Invalid(ObfuscationError::NotTlsHandshake)
    } else if record_total_len(s) > MAX_CLIENT_HELLO_SIZE {
        HelloSpec::Invalid(ObfuscationError::PacketTooLarge)
    } else if s.len() < record_total_len(s) {
        HelloSpec::NeedMoreData { expected_record_len: record_total_len(s) }
    } else if record_total_len(s) == 5 || s[5] != TLS_CLIENT_HELLO_HANDSHAKE_TYPE {
        HelloSpec::Invalid(ObfuscationError::NotClientHello)
    } else if record_total_len(s) - 6 < 3 {
        malformed()
    } else if record_total_len(s) - 9 < be24_at(s, 6) {
        malformed()
    } else {
        hello_body_spec(s, 9, 9 + be24_at(s, 6))
    }
}

fn read_u16_list(s: &[u8], p: usize, count: usize) -> (r: Vec<u16>)
    requires
        p + 2 * count <= s@.len(),
    ensures
        r@ == u16_list(s@, p as int, count as int),
{
    let n = s.len();
    let mut out: Vec<u16> = Vec::new();
    let mut k: usize = 0;
    while k < count
        invariant
            0 <= k <= count,
            n == s@.len(),
            p + 2 * count <= s@.len(),
            out@ == u16_list(s@, p as int, k as int),
        decreases count - k,
    {
        out.push(get_u16(s, p + 2 * k));
        k = k + 1;
        assert(out@ =~= u16_list(s@, p as int, k as int));
    }
    out
}

fn read_sni(s: &[u8], p: usize, l: usize) -> (r: Option<String>)
    requires
        p + l <= s@.len(),
        l >= 5,
    ensures
        opt_text(r) == sni_of(s@, p as int, l as int),
{
    let n = s.len();
    let name_type = s[p + 2];
    let name_len = get_u16(s, p + 3) as usize;
    if name_type == 0 && l - 5 >= name_len {
        let name = copy_range(s, p + 5, p + 5 + name_len);
        match utf8_to_string(name.as_slice()) {
            Some(host) => Some(to_ascii_lowercase(host.as_str())),
            None => None,
        }
    } else {
        None
    }
}

fn offers_tls13(s: &[u8], p: usize, l: usize) -> (r: bool)
    requires
        p + l <= s@.len(),
        l > 0,
    ensures
        r == offers_tls13_spec(s@, p as int, l as int),
{
    let n = s.len();
    let vl = s[p] as usize;
    if l - 1 < vl {
        return false;
    }
    let count = vl / 2;
    let mut k: usize = 0;
    while k < count
        invariant
            0 <= k <= count,
            n == s@.len(),
            count == vl / 2,
            vl == s@[p as int],
            l > 0,
            l - 1 >= vl,
            p + l <= s@.len(),
            forall|j: int| 0 <= j < k ==> #[trigger] be16_at(s@, p + 1 + 2 * j) != TLS_1_3_VERSION,
        decreases count - k,
    {
        if get_u16(s, p + 1 + 2 * k) == TLS_1_3_VERSION {
            assert(lists_tls13(s@, p + 1, count as int));
            return true;
        }
        k = k + 1;
    }
    false
}

fn scan_extension_block(s: &[u8], start: usize, end: usize) -> (r: Option<(Option<String>, bool)>)
    requires
        start <= end <= s@.len(),
    ensures
        match r {
            None => scan_extensions(s@, start as int, end as int, None, false) is None,
            Some((sni, t)) => scan_extensions(s@, start as int, end as int, None, false) == Some((opt_text(sni), t)),
        },
{
    let mut q = start;
    let mut sni: Option<String> = None;
    let mut tls13 = false;
    while end - q >= 4
        invariant
            start <= q <= end <= s@.len(),
            scan_extensions(s@, start as int, end as int, None, false) == scan_extensions(
                s@,
                q as int,
                end as int,
                opt_text(sni),
                tls13,
            ),
        decreases end - q,
    {
        let ty = get_u16(s, q);
        let l = get_u16(s, q + 2) as usize;
        if end - (q + 4) < l {
            return None;
        }
        let data = q + 4;
        if ty == TLS_EXT_SERVER_NAME && l >= 5 {
            match read_sni(s, data, l) {
                Some(h) => {
                    sni = Some(h);
                },
                None => {},
            }
        }
        if ty == TLS_EXT_SUPPORTED_VERSIONS && l > 0 {
            if offers_tls13(s, data, l) {
                tls13 = true;
            }
        }
        q = data + l;
    }
    Some((sni, tls13))
}

fn parse_hello_body(s: &[u8], start: usize, end: usize) -> (r: ClientHelloStatus)
    requires
        start <= end <= s@.len(),
    ensures
        status_view(r) == hello_body_spec(s@, start as int, end as int),
{
    if end - start < 34 {
        return ClientHelloStatus::Invalid(ObfuscationError::MalformedData);
    }
    let legacy_version = get_u16(s, start);
    let mut random = [0u8; 32];
    let mut i: usize = 0;
    while i < 32
        invariant
            0 <= i <= 32,
            start + 34 <= end <= s@.len(),
            forall|j: int| 0 <= j < i ==> random@[j] == s@[start + 2 + j],
        decreases 32 - i,
    {
        random[i] = s[start + 2 + i];
        i = i + 1;
    }
    assert(random@ =~= s@.subrange(start + 2, start + 34));
    let p = start + 34;
    if p >= end {
        return ClientHelloStatus::Invalid(ObfuscationError::MalformedData);
    }
    let sid_len = s[p] as usize;
    if end - (p + 1) < sid_len {
        return ClientHelloStatus::Invalid(ObfuscationError::MalformedData);
    }
    let session_id = copy_range(s, p + 1, p + 1 + sid_len);
    let p2 = p + 1 + sid_len;
    if end - p2 < 2 {
        return ClientHelloStatus::Invalid(ObfuscationError::MalformedData);
    }
    let cs_len = get_u16(s, p2) as usize;
    let p3 = p2 + 2;
    if end - p3 < cs_len || cs_len % 2 != 0 {
        return ClientHelloStatus::Invalid(ObfuscationError::MalformedData);
    }
    let cipher_suites = read_u16_list(s, p3, cs_len / 2);
    let p4 = p3 + cs_len;
    if p4 >= end {
        return ClientHelloStatus::Invalid(ObfuscationError::MalformedData);
    }
    let comp = s[p4] as usize;
    let p5 = p4 + 1;
    if end - p5 < comp {
        return ClientHelloStatus::Invalid(ObfuscationError::MalformedData);
    }
    let p6 = p5 + comp;
    let found = if end - p6 >= 2 {
        let ext_len = get_u16(s, p6) as usize;
        let p7 = p6 + 2;
        if end - p7 < ext_len {
            None
        } else {
            scan_extension_block(s, p7, p7 + ext_len)
        }
    } else {
        Some((None, false))
    };
    match found {
        None => ClientHelloStatus::Invalid(ObfuscationError::MalformedData),
        Some((sni, is_tls13)) => ClientHelloStatus::Complete(
            ParsedClientHello { legacy_version, random, session_id, cipher_suites, sni, is_tls13 },
        ),
    }
}

/// Parses a buffer that should start with a TLS record carrying a ClientHello.
/// A buffer that holds only part of the record asks for the record's full length.
pub fn parse_client_hello(src: &[u8]) -> (r: ClientHelloStatus)
    ensures
        status_view(r) == hello_spec(src@),
{
    if src.len() < 5 {
        return ClientHelloStatus::NeedMoreData { expected_record_len: 5 };
    }
    if src[0] != TLS_HANDSHAKE_CONTENT_TYPE {
        return ClientHelloStatus::Invalid(ObfuscationError::NotTlsHandshake);
    }
    let record_len = get_u16(src, 3) as usize;
    let total_len = 5 + record_len;
    if total_len > MAX_CLIENT_HELLO_SIZE {
        return ClientHelloStatus::Invalid(ObfuscationError::PacketTooLarge);
    }
    if src.len() < total_len {
        return ClientHelloStatus::NeedMoreData { expected_record_len: total_len };
    }
    if total_len == 5 || src[5] != TLS_CLIENT_HELLO_HANDSHAKE_TYPE {
        return ClientHelloStatus::Invalid(ObfuscationError::NotClientHello);
    }
    if total_len - 6 < 3 {
        return ClientHelloStatus::Invalid(ObfuscationError::MalformedData);
    }
    let hs_len = (src[6] as usize) * 65536 + (src[7] as usize) * 256 + (src[8] as usize);
    if total_len - 9 < hs_len {
        return ClientHelloStatus::Invalid(ObfuscationError::MalformedData);
    }
    parse_hello_body(src, 9, 9 + hs_len)
}

/// The message authenticated by the cover proof: context, ClientHello random
/// and the UTF-8 server name.
pub open spec fn cover_message(random: Seq<u8>, sni: Seq<char>) -> Seq<u8> {
    cover_auth_context_spec() + random + encode_utf8(sni)
}

/// Builds the message of the cover proof.
fn cover_proof_message(random: &[u8], sni: &str) -> (r: Vec<u8>)
    ensures
        r@ == cover_message(random@, sni@),
{
    let mut msg: Vec<u8> = Vec::new();
    let context = cover_auth_context();
    put_slice(&mut msg, context.as_slice());
    put_slice(&mut msg, random);
    put_slice(&mut msg, sni.as_bytes());
    msg
}

/// Verifies the challenge-response cover proof carried in a ClientHello.
/// There is no `Debug`: `debug_text` gives a rendering without the secret.
#[derive(Clone)]
pub struct TokenValidator {
    secret: Vec<u8>,
    expected_sni: Option<String>,
    insecure_no_token: bool,
}

impl TokenValidator {
    /// The shared secret.
    pub closed spec fn secret_view(&self) -> Seq<u8> {
        self.secret@
    }

    /// The server name a hello must carry, if one is required.
    pub closed spec fn expected_sni_view(&self) -> Option<Seq<char>> {
        opt_text(self.expected_sni)
    }

    /// Whether every hello is accepted without checking the proof.
    pub closed spec fn insecure_view(&self) -> bool {
        self.insecure_no_token
    }

    /// Whether a hello with this random, session id and server name passes:
    /// the insecure bypass, or a non-empty secret, a 32-byte session id, the
    /// expected server name if one is set, and a session id that is the HMAC
    /// of context, random and server name (empty when absent) under the secret.
    pub open spec fn accepts_fields(&self, random: Seq<u8>, session_id: Seq<u8>, sni: Option<Seq<char>>) -> bool {
        let text = match sni {
            Some(t) => t,
            None => Seq::empty(),
        };
        self.insecure_view() || (self.secret_view().len() > 0 && session_id.len() == 32 && (match self.expected_sni_view() {
            Some(e) => text == e,
            None => true,
        }) && session_id == hmac_sha256(self.secret_view(), cover_message(random, text)))
    }

    /// Whether the parsed hello `h` passes.
    pub open spec fn accepts(&self, h: ParsedClientHello) -> bool {
        self.accepts_fields(h.random@, h.session_id@, opt_text(h.sni))
    }

    /// The rendering for logs: the secret replaced by `[REDACTED]`.
    pub open spec fn debug_view(&self) -> Seq<char> {
        "TokenValidator { secret: \"[REDACTED]\", expected_sni: "@ + match self.expected_sni_view() {
            Some(t) => "Some("@ + debug_quoted(t) + ")"@,
            None => "None"@,
        } + ", insecure_no_token: "@ + bool_text(self.insecure_view()) + " }"@
    }

    /// A rendering for logs that leaves the secret out.
    pub fn debug_text(&self) -> (r: String)
        ensures
            r@ == self.debug_view(),
    {
        let head = "TokenValidator { secret: \"[REDACTED]\", expected_sni: ".to_string();
        let a = match &self.expected_sni {
            Some(t) => {
                let b = concat_text(head.as_str(), "Some(");
                let b2 = concat_text(b.as_str(), str_debug(t.as_str()).as_str());
                concat_text(b2.as_str(), ")")
            },
            None => concat_text(head.as_str(), "None"),
        };
        let c = concat_text(a.as_str(), ", insecure_no_token: ");
        let d = concat_text(c.as_str(), bool_string(self.insecure_no_token).as_str());
        let r = concat_text(d.as_str(), " }");
        proof {
            assert(r@ =~= self.debug_view());
        }
        r
    }

    pub fn new(secret: Vec<u8>) -> (r: Self)
        ensures
            r.secret_view() == secret@,
            r.expected_sni_view() is None,
            !r.insecure_view(),
    {
        TokenValidator { secret, expected_sni: None, insecure_no_token: false }
    }

    /// Requires the server name `sni` (compared in ASCII lower case).
    pub fn with_expected_sni(self, sni: String) -> (r: Self)
        ensures
            r.secret_view() == self.secret_view(),
            r.expected_sni_view() == Some(ascii_lower(sni@)),
            r.insecure_view() == self.insecure_view(),
    {
        let lowered = to_ascii_lowercase(sni.as_str());
        TokenValidator { secret: self.secret, expected_sni: Some(lowered), insecure_no_token: self.insecure_no_token }
    }

    /// Turns the insecure bypass on or off.
    pub fn with_insecure_no_token(self, enabled: bool) -> (r: Self)
        ensures
            r.secret_view() == self.secret_view(),
            r.expected_sni_view() == self.expected_sni_view(),
            r.insecure_view() == enabled,
    {
        TokenValidator { secret: self.secret, expected_sni: self.expected_sni, insecure_no_token: enabled }
    }

    /// The same as `with_insecure_no_token`.
    pub fn with_insecure_no_auth(self, enabled: bool) -> (r: Self)
        ensures
            r.secret_view() == self.secret_view(),
            r.expected_sni_view() == self.expected_sni_view(),
            r.insecure_view() == enabled,
    {
        self.with_insecure_no_token(enabled)
    }

    pub fn is_insecure_no_token(&self) -> (r: bool)
        ensures
            r == self.insecure_view(),
    {
        self.insecure_no_token
    }

    pub fn secret(&self) -> (r: &[u8])
        ensures
            r@ == self.secret_view(),
    {
        self.secret.as_slice()
    }

    /// Verifies a challenge-response proof. The reusable token itself is never
    /// carried in any wire field.
    pub fn validate(&self, client_hello: &ParsedClientHello) -> (r: bool)
        ensures
            r == self.accepts(*client_hello),
    {
        if self.insecure_no_token {
            return true;
        }
        if self.secret.len() == 0 || client_hello.session_id.len() != 32 {
            return false;
        }
        let sni: String = match &client_hello.sni {
            Some(s) => s.clone(),
            None => String::new(),
        };
        match &self.expected_sni {
            Some(expected) => {
                if !(sni == *expected) {
                    return false;
                }
            },
            None => {},
        }
        let msg = cover_proof_message(client_hello.random.as_slice(), sni.as_str());
        hmac_sha256_verify(self.secret.as_slice(), msg.as_slice(), client_hello.session_id.as_slice())
    }
}

/// The cipher suites every camouflaged hello offers.
pub open spec fn builder_suites() -> Seq<u16> {
    seq![TLS_AES_128_GCM_SHA256, TLS_AES_256_GCM_SHA384, TLS_CHACHA20_POLY1305_SHA256]
}

/// The big-endian bytes of a list of 16-bit values.
pub open spec fn u16_list_bytes(l: Seq<u16>) -> Seq<u8>
    decreases l.len(),
{
    if l.len() == 0 {
        Seq::empty()
    } else {
        u16_list_bytes(l.drop_last()) + be16_bytes(l.last())
    }
}

/// The server_name extension for host name bytes `sni`.
pub open spec fn sni_extension(sni: Seq<u8>) -> Seq<u8> {
    be16_bytes(TLS_EXT_SERVER_NAME) + be16_bytes((5 + sni.len()) as u16) + be16_bytes((3 + sni.len()) as u16)
        + seq![0u8] + be16_bytes(sni.len() as u16) + sni
}

/// The fixed extensions after the server name: supported versions (TLS 1.3,
/// TLS 1.2), groups, signature algorithms, then a key share with `key_share`.
pub open spec fn tail_extensions(key_share: Seq<u8>) -> Seq<u8> {
    be16_bytes(TLS_EXT_SUPPORTED_VERSIONS) + be16_bytes(5) + seq![4u8] + be16_bytes(TLS_1_3_VERSION)
        + be16_bytes(TLS_LEGACY_CLIENT_VERSION) + be16_bytes(TLS_EXT_SUPPORTED_GROUPS) + be16_bytes(6)
        + be16_bytes(4) + be16_bytes(0x001d) + be16_bytes(0x0017) + be16_bytes(TLS_EXT_SIGNATURE_ALGORITHMS)
        + be16_bytes(8) + be16_bytes(6) + be16_bytes(0x0403) + be16_bytes(0x0804) + be16_bytes(0x0807)
        + be16_bytes(TLS_EXT_KEY_SHARE) + be16_bytes(38) + be16_bytes(36) + be16_bytes(0x001d) + be16_bytes(32)
        + key_share
}

/// A ClientHello handshake body around the extension block `ext`.
pub open spec fn handshake_body_bytes(random: Seq<u8>, tag: Seq<u8>, ext: Seq<u8>) -> Seq<u8> {
    be16_bytes(TLS_LEGACY_CLIENT_VERSION) + random + seq![32u8] + tag + be16_bytes(6) + u16_list_bytes(
        builder_suites(),
    ) + seq![1u8, 0u8] + be16_bytes(ext.len() as u16) + ext
}

/// The handshake body of a camouflaged ClientHello.
pub open spec fn hello_body_bytes(random: Seq<u8>, tag: Seq<u8>, key_share: Seq<u8>, sni: Seq<u8>) -> Seq<u8> {
    handshake_body_bytes(random, tag, sni_extension(sni) + tail_extensions(key_share))
}

/// A TLS handshake record around the ClientHello body `hs`: record header,
/// then the handshake header (type 1, 24-bit length).
pub open spec fn record_bytes(hs: Seq<u8>) -> Seq<u8> {
    let n = hs.len() as int;
    seq![TLS_HANDSHAKE_CONTENT_TYPE] + be16_bytes(TLS_LEGACY_RECORD_VERSION) + be16_bytes((4 + n) as u16) + seq![
        TLS_CLIENT_HELLO_HANDSHAKE_TYPE,
        ((n / 65536) % 256) as u8,
        ((n / 256) % 256) as u8,
        (n % 256) as u8,
    ] + hs
}

/// A whole camouflaged ClientHello record.
pub open spec fn hello_record(random: Seq<u8>, tag: Seq<u8>, key_share: Seq<u8>, sni: Seq<u8>) -> Seq<u8> {
    record_bytes(hello_body_bytes(random, tag, key_share, sni))
}

/// Appends the server_name extension for host name bytes `sni`.
fn put_server_name_extension(ext: &mut Vec<u8>, sni: &[u8])
    ensures
        final(ext)@ == old(ext)@ + sni_extension(sni@),
{
    let sni_len = sni.len();
    put_u16(ext, TLS_EXT_SERVER_NAME);
    let ext_data_len = (((sni_len as u16) as u32) + 5) as u16;
    let list_len = (((sni_len as u16) as u32) + 3) as u16;
    assert(ext_data_len == (5 + sni_len) as u16) by (bit_vector)
        requires
            ext_data_len == (((sni_len as u16) as u32) + 5) as u16,
    ;
    assert(list_len == (3 + sni_len) as u16) by (bit_vector)
        requires
            list_len == (((sni_len as u16) as u32) + 3) as u16,
    ;
    put_u16(ext, ext_data_len);
    put_u16(ext, list_len);
    ext.push(0u8);
    put_u16(ext, sni_len as u16);
    put_slice(ext, sni);
    assert(final(ext)@ =~= old(ext)@ + sni_extension(sni@));
}

/// Appends the supported-versions, groups, signature-algorithms and key-share extensions.
fn put_tail_extensions(ext: &mut Vec<u8>, key_share: &[u8])
    ensures
        final(ext)@ == old(ext)@ + tail_extensions(key_share@),
{
    put_u16(ext, TLS_EXT_SUPPORTED_VERSIONS);
    put_u16(ext, 5);
    ext.push(4u8);
    put_u16(ext, TLS_1_3_VERSION);
    put_u16(ext, TLS_LEGACY_CLIENT_VERSION);
    put_u16(ext, TLS_EXT_SUPPORTED_GROUPS);
    put_u16(ext, 6);
    put_u16(ext, 4);
    put_u16(ext, 0x001d);
    put_u16(ext, 0x0017);
    put_u16(ext, TLS_EXT_SIGNATURE_ALGORITHMS);
    put_u16(ext, 8);
    put_u16(ext, 6);
    put_u16(ext, 0x0403);
    put_u16(ext, 0x0804);
    put_u16(ext, 0x0807);
    put_u16(ext, TLS_EXT_KEY_SHARE);
    put_u16(ext, 38);
    put_u16(ext, 36);
    put_u16(ext, 0x001d);
    put_u16(ext, 32);
    put_slice(ext, key_share);
    assert(final(ext)@ =~= old(ext)@ + tail_extensions(key_share@));
}

/// The ClientHello handshake body around a given extension block.
fn handshake_body(random: &[u8], tag: &[u8], suites: &Vec<u16>, extensions: &[u8]) -> (r: Vec<u8>)
    requires
        suites@ == builder_suites(),
    ensures
        r@ == handshake_body_bytes(random@, tag@, extensions@),
{
    let mut hs_body: Vec<u8> = Vec::new();
    put_u16(&mut hs_body, TLS_LEGACY_CLIENT_VERSION);
    put_slice(&mut hs_body, random);
    hs_body.push(32u8);
    put_slice(&mut hs_body, tag);
    put_u16(&mut hs_body, (suites.len() * 2) as u16);
    let ghost before_suites = hs_body@;
    let mut k: usize = 0;
    while k < suites.len()
        invariant
            0 <= k <= suites@.len(),
            suites@ == builder_suites(),
            hs_body@ == before_suites + u16_list_bytes(suites@.subrange(0, k as int)),
        decreases suites@.len() - k,
    {
        put_u16(&mut hs_body, suites[k]);
        k = k + 1;
        assert(suites@.subrange(0, k as int).drop_last() =~= suites@.subrange(0, k - 1));
    }
    assert(suites@.subrange(0, 3) =~= suites@);
    hs_body.push(1u8);
    hs_body.push(0u8);
    put_u16(&mut hs_body, extensions.len() as u16);
    put_slice(&mut hs_body, extensions);
    assert(hs_body@ =~= be16_bytes(TLS_LEGACY_CLIENT_VERSION) + random@ + seq![32u8] + tag@ + be16_bytes(6)
        + u16_list_bytes(builder_suites()) + seq![1u8, 0u8] + be16_bytes(extensions@.len() as u16) + extensions@);
    hs_body
}

/// The handshake record around a handshake body: record header, then the
/// handshake header (type 1, 24-bit length).
fn wrap_handshake_record(hs: &[u8]) -> (r: Vec<u8>)
    ensures
        r@ == record_bytes(hs@),
{
    let hs_len = hs.len();
    let mut record: Vec<u8> = Vec::new();
    record.push(TLS_HANDSHAKE_CONTENT_TYPE);
    put_u16(&mut record, TLS_LEGACY_RECORD_VERSION);
    let record_len = (((hs_len as u16) as u32) + 4) as u16;
    assert(record_len == (4 + hs_len) as u16) by (bit_vector)
        requires
            record_len == (((hs_len as u16) as u32) + 4) as u16,
    ;
    put_u16(&mut record, record_len);
    record.push(TLS_CLIENT_HELLO_HANDSHAKE_TYPE);
    let b0 = ((hs_len >> 16usize) & 0xffusize) as u8;
    let b1 = ((hs_len >> 8usize) & 0xffusize) as u8;
    let b2 = (hs_len & 0xffusize) as u8;
    assert(((hs_len >> 16usize) & 0xffusize) == (hs_len / 65536) % 256) by (bit_vector);
    assert(((hs_len >> 8usize) & 0xffusize) == (hs_len / 256) % 256) by (bit_vector);
    assert((hs_len & 0xffusize) == hs_len % 256) by (bit_vector);
    record.push(b0);
    record.push(b1);
    record.push(b2);
    put_slice(&mut record, hs);
    assert(record@ =~= record_bytes(hs@));
    record
}

/// Builds camouflaged TLS 1.3 ClientHello records that carry a fresh
/// challenge-response cover proof instead of the secret.
pub struct PseudoTlsBuilder {
    secret_token: Vec<u8>,
    sni_host: String,
    cipher_suites: Vec<u16>,
}

impl PseudoTlsBuilder {
    #[verifier::type_invariant]
    spec fn well_formed(self) -> bool {
        self.cipher_suites@ == builder_suites() && ascii_lower(self.sni_host@) == self.sni_host@
    }

    /// The shared secret.
    pub closed spec fn secret_view(&self) -> Seq<u8> {
        self.secret_token@
    }

    /// The (lower-cased) server name put in every hello.
    pub closed spec fn sni_view(&self) -> Seq<char> {
        self.sni_host@
    }

    pub fn new(secret_token: Vec<u8>, sni_host: String) -> (r: Self)
        ensures
            r.secret_view() == secret_token@,
            r.sni_view() == ascii_lower(sni_host@),
    {
        let lowered = to_ascii_lowercase(sni_host.as_str());
        let mut cipher_suites: Vec<u16> = Vec::new();
        cipher_suites.push(TLS_AES_128_GCM_SHA256);
        cipher_suites.push(TLS_AES_256_GCM_SHA384);
        cipher_suites.push(TLS_CHACHA20_POLY1305_SHA256);
        assert(cipher_suites@ =~= builder_suites());
        proof {
            crate::text::lemma_ascii_lower_idempotent(sni_host@);
        }
        PseudoTlsBuilder { secret_token, sni_host: lowered, cipher_suites }
    }

    /// Kept for compatibility: the secret never goes into the server name, so
    /// the builder is returned unchanged.
    pub fn embed_in_sni(self, _enabled: bool) -> (r: Self)
        ensures
            r.secret_view() == self.secret_view(),
            r.sni_view() == self.sni_view(),
    {
        self
    }

    /// The hello for the given ClientHello random and key share: the session id
    /// field carries the HMAC of context, random and server name under the secret.
    pub fn build_with(&self, random: [u8; 32], key_share: [u8; 32]) -> (r: Vec<u8>)
        ensures
            ascii_lower(self.sni_view()) == self.sni_view(),
            hmac_sha256(self.secret_view(), cover_message(random@, self.sni_view())).len() == 32,
            r@ == hello_record(
                random@,
                hmac_sha256(self.secret_view(), cover_message(random@, self.sni_view())),
                key_share@,
                encode_utf8(self.sni_view()),
            ),
    {
        proof {
            use_type_invariant(self);
        }
        let sni_bytes = self.sni_host.as_str().as_bytes();
        let msg = cover_proof_message(random.as_slice(), self.sni_host.as_str());
        let auth_tag = hmac_sha256_tag(self.secret_token.as_slice(), msg.as_slice());
        let mut extensions: Vec<u8> = Vec::new();
        put_server_name_extension(&mut extensions, sni_bytes);
        put_tail_extensions(&mut extensions, key_share.as_slice());
        assert(extensions@ =~= sni_extension(sni_bytes@) + tail_extensions(key_share@));
        let hs_body = handshake_body(random.as_slice(), auth_tag.as_slice(), &self.cipher_suites, extensions.as_slice());
        assert(hs_body@ =~= hello_body_bytes(random@, auth_tag@, key_share@, sni_bytes@));
        wrap_handshake_record(hs_body.as_slice())
    }

    /// A camouflaged hello with a fresh random and a fresh key share.
    pub fn build(&self) -> (r: Vec<u8>)
        ensures
            ascii_lower(self.sni_view()) == self.sni_view(),
            exists|random: Seq<u8>, key_share: Seq<u8>|
                random.len() == 32 && key_share.len() == 32
                && hmac_sha256(self.secret_view(), cover_message(random, self.sni_view())).len() == 32
                && r@ == hello_record(
                    random,
                    hmac_sha256(self.secret_view(), cover_message(random, self.sni_view())),
                    key_share,
                    encode_utf8(self.sni_view()),
                ),
    {
        let random = random_32_bytes();
        let key_share = random_32_bytes();
        self.build_with(random, key_share)
    }
}

/// The lower-case hexadecimal digit of a value below 16.
pub open spec fn hex_digit(v: u8) -> u8 {
    if v < 10 { (48 + v) as u8 } else { (87 + v) as u8 }
}

/// The two lower-case hexadecimal digits of each byte, in order.
pub open spec fn hex_bytes(b: Seq<u8>) -> Seq<u8> {
    Seq::new(2 * b.len(), |i: int| if i % 2 == 0 { hex_digit(b[i / 2] / 16) } else { hex_digit(b[i / 2] % 16) })
}

/// Lower-case hexadecimal text of `bytes`, two digits per byte.
pub fn hex_encode(bytes: &[u8]) -> (r: String)
    ensures
        r@ == ascii_chars(hex_bytes(bytes@)),
{
    let mut out: Vec<u8> = Vec::new();
    let mut i: usize = 0;
    while i < bytes.len()
        invariant
            0 <= i <= bytes@.len(),
            out@ == hex_bytes(bytes@.subrange(0, i as int)),
        decreases bytes@.len() - i,
    {
        let b = bytes[i];
        let hi = b / 16;
        let lo = b % 16;
        out.push(if hi < 10 { 48 + hi } else { 87 + hi });
        out.push(if lo < 10 { 48 + lo } else { 87 + lo });
        i = i + 1;
        assert(out@ =~= hex_bytes(bytes@.subrange(0, i as int)));
    }
    assert(bytes@.subrange(0, bytes@.len() as int) =~= bytes@);
    ascii_bytes_to_string(out.as_slice())
}

/// The value of one hexadecimal digit.
pub open spec fn hex_val(c: u8) -> Option<u8> {
    if 48 <= c <= 57 {
        Some((c - 48) as u8)
    } else if 97 <= c <= 102 {
        Some((c - 87) as u8)
    } else if 65 <= c <= 70 {
        Some((c - 55) as u8)
    } else {
        None
    }
}

/// `u8::from_str_radix` of a two-character text in base 16: an optional `+`
/// sign followed by digits, as its documentation states.
pub open spec fn hex_pair(x: u8, y: u8) -> Option<u8> {
    if x == 43 {
        hex_val(y)
    } else {
        match (hex_val(x), hex_val(y)) {
            (Some(a), Some(b)) => Some((16 * a + b) as u8),
            _ => None,
        }
    }
}

/// Decoding hexadecimal text given as bytes: every pair must decode.
pub open spec fn hex_decode_bytes(b: Seq<u8>) -> Option<Seq<u8>> {
    if b.len() % 2 != 0 {
        None
    } else if forall|k: int| 0 <= k < b.len() / 2 ==> (#[trigger] hex_pair(b[2 * k], b[2 * k + 1])) is Some {
        Some(Seq::new((b.len() / 2) as nat, |k: int| hex_pair(b[2 * k], b[2 * k + 1]).unwrap()))
    } else {
        None
    }
}

/// Every pair before pair `k` decodes, so the decoder goes on to pair `k`.
pub open spec fn hex_pairs_decode_before(b: Seq<u8>, k: int) -> bool {
    forall|j: int| 0 <= j < k ==> (#[trigger] hex_pair(b[2 * j], b[2 * j + 1])) is Some
}

/// Cutting bytes into two-byte pieces stays on character boundaries for
/// every piece the decoder reaches: the pieces up to the first one that is
/// not a number in base 16 (the decoder stops there) each begin and end on a
/// character boundary.
pub open spec fn hex_pieces_safe(b: Seq<u8>) -> bool {
    b.len() % 2 != 0 || forall|k: int| 0 <= k && 2 * k < b.len() && hex_pairs_decode_before(b, k) ==> #[trigger] piece_on_boundaries(b, k)
}

/// Piece `k` (bytes `2k` and `2k + 1`) begins and ends on a character boundary.
pub open spec fn piece_on_boundaries(b: Seq<u8>, k: int) -> bool {
    &&& !is_continuation_byte(b[2 * k])
    &&& 2 * k + 2 < b.len() ==> !is_continuation_byte(b[2 * k + 2])
}

/// Decoding the text (trimmed) cuts it into pieces on character boundaries only.
pub open spec fn hex_decode_safe(s: Seq<char>) -> bool {
    hex_pieces_safe(encode_utf8(trim(s)))
}

/// The value of a two-byte piece in base 16, as `hex_pair`.
fn hex_pair_value(x: u8, y: u8) -> (r: Option<u8>)
    ensures
        r == hex_pair(x, y),
{
    if x == 43 {
        hex_digit_value(y)
    } else {
        match (hex_digit_value(x), hex_digit_value(y)) {
            (Some(a), Some(c)) => Some(16 * a + c),
            _ => None,
        }
    }
}

/// Whether `hex_decode` may be given `s`: its trimmed bytes have odd length,
/// or every two-byte piece the decoder reaches lies on character boundaries.
pub fn hex_text_is_safe(s: &str) -> (r: bool)
    ensures
        r == hex_decode_safe(s@),
{
    let t = str_trim(s);
    let b = t.as_bytes();
    assert(b@ == encode_utf8(trim(s@)));
    if b.len() % 2 != 0 {
        return true;
    }
    let n = b.len();
    let half = n / 2;
    let ghost bs = b@;
    let mut k: usize = 0;
    while k < half
        invariant
            n == bs.len(),
            bs == b@,
            bs == encode_utf8(trim(s@)),
            half * 2 == n,
            k <= half,
            hex_pairs_decode_before(bs, k as int),
            forall|j: int| 0 <= j < k ==> #[trigger] piece_on_boundaries(bs, j),
        decreases half - k,
    {
        assert(2 * k + 1 < n) by (nonlinear_arith)
            requires
                k < half,
                half * 2 == n,
        ;
        let i: usize = 2 * k;
        if 0x80 <= b[i] && b[i] <= 0xBF || i + 2 < n && 0x80 <= b[i + 2] && b[i + 2] <= 0xBF {
            assert(!piece_on_boundaries(bs, k as int));
            assert(!hex_pieces_safe(bs));
            return false;
        }
        assert(piece_on_boundaries(bs, k as int));
        if hex_pair_value(b[i], b[i + 1]).is_none() {
            assert(hex_pair(bs[2 * (k as int)], bs[2 * (k as int) + 1]) is None);
            assert forall|j: int| 0 <= j && 2 * j < bs.len() && hex_pairs_decode_before(bs, j) implies #[trigger] piece_on_boundaries(bs, j) by {
                if j > k {
                    assert(hex_pair(bs[2 * (k as int)], bs[2 * (k as int) + 1]) is Some);
                }
            }
            assert(hex_pieces_safe(bs));
            return true;
        }
        k = k + 1;
        assert forall|j: int| 0 <= j < k implies (#[trigger] hex_pair(bs[2 * j], bs[2 * j + 1])) is Some by {
            if j < k - 1 {
                assert(hex_pairs_decode_before(bs, (k - 1) as int));
            }
        }
    }
    assert forall|j: int| 0 <= j && 2 * j < bs.len() && hex_pairs_decode_before(bs, j) implies #[trigger] piece_on_boundaries(bs, j) by {
        assert(j < half) by (nonlinear_arith)
            requires
                2 * j < n,
                half * 2 == n,
        ;
    }
    assert(hex_pieces_safe(bs));
    true
}

/// Decodes hexadecimal text (surrounding whitespace ignored), or `None` when
/// its length is odd or a pair is not a number in base 16.
pub fn hex_decode(s: &str) -> (r: Option<Vec<u8>>)
    requires
        hex_decode_safe(s@),
    ensures
        match r {
            Some(v) => hex_decode_bytes(encode_utf8(trim(s@))) == Some(v@),
            None => hex_decode_bytes(encode_utf8(trim(s@))) is None,
        },
{
    let t = str_trim(s);
    let b = t.as_bytes();
    if b.len() % 2 != 0 {
        return None;
    }
    let n = b.len();
    let half = n / 2;
    let mut out: Vec<u8> = Vec::new();
    let mut k: usize = 0;
    while k < half
        invariant
            0 <= k <= half,
            n == b@.len(),
            half * 2 == b@.len(),
            b@ == encode_utf8(trim(s@)),
            forall|j: int| 0 <= j < k ==> (#[trigger] hex_pair(b@[2 * j], b@[2 * j + 1])) is Some,
            out@ == Seq::new(k as nat, |j: int| hex_pair(b@[2 * j], b@[2 * j + 1]).unwrap()),
        decreases half - k,
    {
        assert(2 * k + 1 < n) by (nonlinear_arith)
            requires
                k < half,
                half * 2 == n,
        ;
        let i: usize = 2 * k;
        match hex_pair_value(b[i], b[i + 1]) {
            Some(byte) => {
                out.push(byte);
            },
            None => {
                assert(hex_pair(b@[2 * k as int], b@[2 * k + 1]) is None);
                return None;
            },
        }
        k = k + 1;
        assert(out@ =~= Seq::new(k as nat, |j: int| hex_pair(b@[2 * j], b@[2 * j + 1]).unwrap()));
    }
    Some(out)
}

fn hex_digit_value(c: u8) -> (r: Option<u8>)
    ensures
        r == hex_val(c),
{
    if 48 <= c && c <= 57 {
        Some(c - 48)
    } else if 97 <= c && c <= 102 {
        Some(c - 87)
    } else if 65 <= c && c <= 70 {
        Some(c - 55)
    } else {
        None
    }
}

/// Decoding the hexadecimal text of bytes gives the bytes back.
pub proof fn lemma_hex_roundtrip(b: Seq<u8>)
    ensures
        hex_decode_safe(ascii_chars(hex_bytes(b))),
        hex_decode_bytes(encode_utf8(trim(ascii_chars(hex_bytes(b))))) == Some(b),
{
    let h = hex_bytes(b);
    let c = ascii_chars(h);
    assert forall|i: int| 0 <= i < h.len() implies h[i] < 128 && (48 <= #[trigger] h[i] <= 57 || 97 <= h[i] <= 102) by {
        let v: u8 = if i % 2 == 0 { b[i / 2] / 16 } else { b[i / 2] % 16 };
        assert(v < 16);
    }
    assert(vstd::utf8::is_ascii_chars(c));
    vstd::utf8::is_ascii_chars_encode_utf8(c);
    assert(encode_utf8(c) =~= h);
    crate::text::lemma_trim_noop(c);
    assert(trim(c) == c);
    assert forall|k: int| 0 <= k < h.len() / 2 implies (#[trigger] hex_pair(h[2 * k], h[2 * k + 1])) == Some(b[k]) by {
        assert(h[2 * k] == hex_digit(b[k] / 16));
        assert(h[2 * k + 1] == hex_digit(b[k] % 16));
    }
    assert(Seq::new((h.len() / 2) as nat, |k: int| hex_pair(h[2 * k], h[2 * k + 1]).unwrap()) =~= b);
}


/// The first `n` bytes of `a` and of `b` are the same.
spec fn same_prefix(a: Seq<u8>, b: Seq<u8>, n: int) -> bool {
    &&& 0 <= n <= a.len()
    &&& n <= b.len()
    &&& forall|i: int| 0 <= i < n ==> a[i] == b[i]
}

proof fn lemma_be16_prefix(a: Seq<u8>, b: Seq<u8>, n: int, i: int)
    requires
        same_prefix(a, b, n),
        0 <= i,
        i + 2 <= n,
    ensures
        be16_at(a, i) == be16_at(b, i),
{
    assert(a[i] == b[i]);
    assert(a[i + 1] == b[i + 1]);
}

proof fn lemma_sni_prefix(a: Seq<u8>, b: Seq<u8>, n: int, p: int, l: int)
    requires
        same_prefix(a, b, n),
        0 <= p,
        p + l <= n,
        l >= 5,
    ensures
        sni_of(a, p, l) == sni_of(b, p, l),
{
    assert(a[p + 2] == b[p + 2]);
    lemma_be16_prefix(a, b, n, p + 3);
    let name_len = be16_at(a, p + 3) as int;
    if l - 5 >= name_len {
        assert(a.subrange(p + 5, p + 5 + name_len) =~= b.subrange(p + 5, p + 5 + name_len));
    }
}

proof fn lemma_tls13_prefix(a: Seq<u8>, b: Seq<u8>, n: int, p: int, l: int)
    requires
        same_prefix(a, b, n),
        0 <= p,
        p + l <= n,
        l > 0,
    ensures
        offers_tls13_spec(a, p, l) == offers_tls13_spec(b, p, l),
{
    assert(a[p] == b[p]);
    let vl = a[p] as int;
    if l - 1 >= vl {
        let count = vl / 2;
        assert forall|k: int| 0 <= k < count implies #[trigger] be16_at(a, p + 1 + 2 * k) == be16_at(b, p + 1 + 2 * k) by {
            lemma_be16_prefix(a, b, n, p + 1 + 2 * k);
        }
        if lists_tls13(a, p + 1, count) {
            let k = choose|k: int| 0 <= k < count && #[trigger] be16_at(a, p + 1 + 2 * k) == TLS_1_3_VERSION;
            assert(be16_at(b, p + 1 + 2 * k) == TLS_1_3_VERSION);
        }
        if lists_tls13(b, p + 1, count) {
            let k = choose|k: int| 0 <= k < count && #[trigger] be16_at(b, p + 1 + 2 * k) == TLS_1_3_VERSION;
            assert(be16_at(a, p + 1 + 2 * k) == TLS_1_3_VERSION);
        }
    }
}

proof fn lemma_scan_prefix(
    a: Seq<u8>,
    b: Seq<u8>,
    n: int,
    q: int,
    end: int,
    sni: Option<Seq<char>>,
    tls13: bool,
)
    requires
        same_prefix(a, b, n),
        0 <= q,
        end <= n,
    ensures
        scan_extensions(a, q, end, sni, tls13) == scan_extensions(b, q, end, sni, tls13),
    decreases end - q,
{
    if end - q >= 4 {
        lemma_be16_prefix(a, b, n, q);
        lemma_be16_prefix(a, b, n, q + 2);
        let ty = be16_at(a, q);
        let l = be16_at(a, q + 2) as int;
        if end - (q + 4) >= l {
            if ty == TLS_EXT_SERVER_NAME && l >= 5 {
                lemma_sni_prefix(a, b, n, q + 4, l);
            }
            if ty == TLS_EXT_SUPPORTED_VERSIONS && l > 0 {
                lemma_tls13_prefix(a, b, n, q + 4, l);
            }
            let sni2 = if ty == TLS_EXT_SERVER_NAME && l >= 5 {
                match sni_of(a, q + 4, l) {
                    Some(h) => Some(h),
                    None => sni,
                }
            } else {
                sni
            };
            let tls2 = if ty == TLS_EXT_SUPPORTED_VERSIONS && l > 0 {
                tls13 || offers_tls13_spec(a, q + 4, l)
            } else {
                tls13
            };
            lemma_scan_prefix(a, b, n, q + 4 + l, end, sni2, tls2);
        }
    }
}

#[verifier::rlimit(40)]
proof fn lemma_body_prefix(a: Seq<u8>, b: Seq<u8>, n: int, start: int, end: int)
    requires
        same_prefix(a, b, n),
        0 <= start,
        end <= n,
    ensures
        hello_body_spec(a, start, end) == hello_body_spec(b, start, end),
{
    if end - start >= 34 {
        let p = start + 34;
        if p < end {
            assert(a[p] == b[p]);
            let sid_len = a[p] as int;
            if end - (p + 1) >= sid_len {
                let p2 = p + 1 + sid_len;
                if end - p2 >= 2 {
                    lemma_be16_prefix(a, b, n, p2);
                    let cs_len = be16_at(a, p2) as int;
                    let p3 = p2 + 2;
                    if end - p3 >= cs_len && cs_len % 2 == 0 {
                        let p4 = p3 + cs_len;
                        if p4 < end {
                            assert(a[p4] == b[p4]);
                            let comp = a[p4] as int;
                            let p5 = p4 + 1;
                            if end - p5 >= comp {
                                let p6 = p5 + comp;
                                if end - p6 >= 2 {
                                    lemma_be16_prefix(a, b, n, p6);
                                    let ext_len = be16_at(a, p6) as int;
                                    let p7 = p6 + 2;
                                    if end - p7 >= ext_len {
                                        lemma_scan_prefix(a, b, n, p7, p7 + ext_len, None, false);
                                    }
                                }
                                lemma_be16_prefix(a, b, n, start);
                                assert(a.subrange(start + 2, start + 34) =~= b.subrange(start + 2, start + 34));
                                assert(a.subrange(p + 1, p2) =~= b.subrange(p + 1, p2));
                                assert forall|k: int| 0 <= k < cs_len / 2 implies #[trigger] be16_at(a, p3 + 2 * k) == be16_at(
                                    b,
                                    p3 + 2 * k,
                                ) by {
                                    lemma_be16_prefix(a, b, n, p3 + 2 * k);
                                }
                                assert(u16_list(a, p3, cs_len / 2) =~= u16_list(b, p3, cs_len / 2));
                            }
                        }
                    }
                }
            }
        }
    }
}

proof fn lemma_hello_prefix(a: Seq<u8>, b: Seq<u8>)
    requires
        a.len() >= 5,
        a.len() >= record_total_len(a),
        same_prefix(a, b, record_total_len(a)),
    ensures
        hello_spec(a) == hello_spec(b),
{
    let t = record_total_len(a);
    assert(a[0] == b[0]);
    lemma_be16_prefix(a, b, t, 3);
    assert(record_total_len(b) == t);
    if t > 5 {
        assert(a[5] == b[5]);
    }
    if t - 6 >= 3 {
        assert(a[6] == b[6] && a[7] == b[7] && a[8] == b[8]);
        let body_end = 9 + be24_at(a, 6);
        if t - 9 >= be24_at(a, 6) {
            lemma_body_prefix(a, b, t, 9, body_end);
        }
    }
}

/// Bytes after the first TLS record never change what parsing a hello finds:
/// the record alone, or the record followed by anything (the start of the
/// stream that follows the hello), parses as the buffer does. Since
/// `parse_client_hello(src)` is exactly `hello_spec(src@)`, this is the law
/// for `parse_client_hello(&[src, extra].concat())`, `parse_client_hello(&src[..t])`
/// and `parse_client_hello(src)`, with `t` the record's length.
pub proof fn lemma_parse_ignores_bytes_after_record(src: Seq<u8>, extra: Seq<u8>)
    requires
        src.len() >= 5,
        src.len() >= record_total_len(src),
    ensures
        hello_spec(src + extra) == hello_spec(src),
        hello_spec(src.subrange(0, record_total_len(src))) == hello_spec(src),
{
    let t = record_total_len(src);
    assert(same_prefix(src, src + extra, t));
    lemma_hello_prefix(src, src + extra);
    let head = src.subrange(0, t);
    assert(same_prefix(head, src, t));
    lemma_hello_prefix(head, src);
}

/// A supported_versions extension (data `s[p..p + l]`: a length byte, then
/// 16-bit versions) offers TLS 1.3 exactly when its list is well formed and
/// one of its versions, at whatever position, is 0x0304; a client that lists
/// GREASE or older versions first is still seen to offer TLS 1.3.
pub proof fn lemma_tls13_offered_at_any_position(s: Seq<u8>, p: int, l: int, k: int)
    requires
        0 <= p,
        p + l <= s.len(),
    ensures
        l > 0 && l - 1 >= s[p] as int && 0 <= k && 2 * k + 2 <= s[p] as int && be16_at(s, p + 1 + 2 * k)
            == TLS_1_3_VERSION ==> offers_tls13_spec(s, p, l),
        offers_tls13_spec(s, p, l) ==> l > 0 && l - 1 >= s[p] as int && exists|j: int|
            0 <= j && 2 * j + 2 <= s[p] as int && #[trigger] be16_at(s, p + 1 + 2 * j) == TLS_1_3_VERSION,
{
    if l > 0 && l - 1 >= s[p] as int && 0 <= k && 2 * k + 2 <= s[p] as int && be16_at(s, p + 1 + 2 * k)
        == TLS_1_3_VERSION {
        assert(k < (s[p] as int) / 2);
        assert(lists_tls13(s, p + 1, (s[p] as int) / 2));
    }
    if offers_tls13_spec(s, p, l) {
        let j = choose|j: int| 0 <= j < (s[p] as int) / 2 && #[trigger] be16_at(s, p + 1 + 2 * j) == TLS_1_3_VERSION;
        assert(2 * j + 2 <= s[p] as int);
    }
}

/// The bypass is explicit and total: a validator with `insecure_no_token`
/// set accepts every hello, whatever its proof.
pub proof fn lemma_insecure_validator_accepts_every_hello(v: TokenValidator, h: ParsedClientHello)
    requires
        v.insecure_view(),
    ensures
        v.accepts(h),
{
}

/// Without the bypass, a hello is accepted only when its session id is the
/// HMAC-SHA256 proof, under the validator's own non-empty secret, of the
/// hello's random and server name: a hello whose session id is not that
/// proof (another secret's, or one made for another random) is refused.
pub proof fn lemma_secure_validator_needs_the_proof(v: TokenValidator, h: ParsedClientHello)
    requires
        !v.insecure_view(),
        h.session_id@ != hmac_sha256(
            v.secret_view(),
            cover_message(
                h.random@,
                match opt_text(h.sni) {
                    Some(t) => t,
                    None => Seq::empty(),
                },
            ),
        ),
    ensures
        !v.accepts(h),
{
}

/// The rendering of a validator never shows its secret: validators that differ
/// only in their secret render alike.
pub proof fn lemma_validator_debug_hides_secret(a: TokenValidator, b: TokenValidator)
    requires
        a.expected_sni_view() == b.expected_sni_view(),
        a.insecure_view() == b.insecure_view(),
    ensures
        a.debug_view() == b.debug_view(),
{
}

/// The rendering of a hello never shows its random or its session id.
pub proof fn lemma_hello_debug_hides_secrets(a: ParsedClientHello, b: ParsedClientHello)
    requires
        a.legacy_version == b.legacy_version,
        a.cipher_suites.len() == b.cipher_suites.len(),
        opt_text(a.sni) == opt_text(b.sni),
        a.is_tls13 == b.is_tls13,
    ensures
        a.debug_view() == b.debug_view(),
{
}

} // verus!
