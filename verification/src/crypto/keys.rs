//! Key material handling: Base64 text of keys, the command-line key-file
//! option, the paths derived from a key file, and the parsing of stored keys
//! and tokens.
use vstd::prelude::*;
use vstd::utf8::encode_utf8;

use snow::params::DHChoice;
use snow::resolvers::{CryptoResolver, DefaultResolver};

use crate::text::{
    ascii_bytes_to_string, ascii_chars, find_from, find_text, lemma_find_from, lossy_text, opt_text, str_equals,
    str_from, str_starts_with, str_trim, string_from_utf8_lossy, trim,
};
use crate::transport::noise::NOISE_PATTERN;
use crate::transport::obfuscation::{hex_decode, hex_decode_bytes, hex_decode_safe, hex_text_is_safe, hex_val};

verus! {

/// Errors of loading, parsing or generating key material.
#[derive(Debug)]
pub enum KeyError {
    Io(std::io::Error),
    Snow(snow::Error),
    InvalidKey(String),
}

/// Whether `t` is the message of a key error: its label, then the message
/// of the I/O or snow error (not stated) or the reason the key was refused.
pub open spec fn key_error_describes(e: KeyError, t: Seq<char>) -> bool {
    match e {
        KeyError::Io(_) => crate::error::begins_with(t, "I/O error: "@),
        KeyError::Snow(_) => crate::error::begins_with(t, "Noise cryptographic error: "@),
        KeyError::InvalidKey(m) => t == "Invalid key: "@ + m@,
    }
}

impl KeyError {
    /// The message of this error.
    pub fn describe(&self) -> (r: String)
        ensures
            key_error_describes(*self, r@),
    {
        match self {
            KeyError::Io(e) => {
                let r = crate::text::concat_text("I/O error: ", crate::error::io_error_text(e).as_str());
                assert(r@.subrange(0, "I/O error: "@.len() as int) =~= "I/O error: "@);
                r
            },
            KeyError::Snow(e) => {
                let r = crate::text::concat_text("Noise cryptographic error: ", crate::error::snow_error_text(e).as_str());
                assert(r@.subrange(0, "Noise cryptographic error: "@.len() as int) =~= "Noise cryptographic error: "@);
                r
            },
            KeyError::InvalidKey(m) => crate::text::concat_text("Invalid key: ", m.as_str()),
        }
    }
}

pub const DEFAULT_KEY_FILE: &'static str = "/etc/echomesh/relay.key";
pub const FALLBACK_KEY_FILE: &'static str = "./relay.key";

/// The Base64 alphabet character of a 6-bit value.
pub open spec fn b64_char(v: u8) -> u8 {
    if v < 26 {
        (65 + v) as u8
    } else if v < 52 {
        (71 + v) as u8
    } else if v < 62 {
        (v - 4) as u8
    } else if v == 62 {
        43
    } else {
        47
    }
}

/// Base64 speaks the standard alphabet of RFC 4648: the encoder writes the
/// 6-bit value `v` as the `v`-th character of
/// `ABCDEFGHIJKLMNOPQRSTUVWXYZabcdefghijklmnopqrstuvwxyz0123456789+/` (so 62
/// is `+` and 63 is `/`), and the decoder reads exactly those characters,
/// each back as its position in that table.
pub proof fn lemma_base64_standard_alphabet(v: u8, c: u8)
    ensures
        v < 64 ==> b64_char(v) as char == "ABCDEFGHIJKLMNOPQRSTUVWXYZabcdefghijklmnopqrstuvwxyz0123456789+/"@[v as int],
        b64_val(c) matches Some(w) ==> w < 64
            && "ABCDEFGHIJKLMNOPQRSTUVWXYZabcdefghijklmnopqrstuvwxyz0123456789+/"@[w as int] == c as char,
        v < 64 && c as char == "ABCDEFGHIJKLMNOPQRSTUVWXYZabcdefghijklmnopqrstuvwxyz0123456789+/"@[v as int]
            ==> b64_val(c) == Some(v),
{
    reveal_strlit("ABCDEFGHIJKLMNOPQRSTUVWXYZabcdefghijklmnopqrstuvwxyz0123456789+/");
    let t = "ABCDEFGHIJKLMNOPQRSTUVWXYZabcdefghijklmnopqrstuvwxyz0123456789+/"@;
    assert(t.len() == 64);
    assert forall|i: int| 0 <= i < 64 implies #[trigger] t[i] == b64_char(i as u8) as char by {
        assert(t[i] == b64_char(i as u8) as char);
    }
}

/// The four Base64 characters of a chunk of one to three bytes, padded with `=`.
pub open spec fn b64_chunk(c: Seq<u8>) -> Seq<u8> {
    let b0 = c[0];
    let b1: u8 = if c.len() > 1 { c[1] } else { 0 };
    let b2: u8 = if c.len() > 2 { c[2] } else { 0 };
    seq![
        b64_char(b0 >> 2),
        b64_char(((b0 & 3) << 4) | (b1 >> 4)),
        if c.len() > 1 { b64_char(((b1 & 15) << 2) | (b2 >> 6)) } else { 61u8 },
        if c.len() > 2 { b64_char(b2 & 63) } else { 61u8 },
    ]
}

/// The bytes of chunk `k` (three bytes, fewer for the last one).
pub open spec fn chunk_of(d: Seq<u8>, k: int) -> Seq<u8> {
    d.subrange(3 * k, if 3 * k + 3 <= d.len() { 3 * k + 3 } else { d.len() as int })
}

/// The Base64 text of the first `k` chunks of `d`.
pub open spec fn b64_chunks(d: Seq<u8>, k: int) -> Seq<u8>
    decreases k,
{
    if k <= 0 {
        Seq::empty()
    } else {
        b64_chunks(d, k - 1) + b64_chunk(chunk_of(d, k - 1))
    }
}

/// The padded Base64 text of `d`.
pub open spec fn b64_encode_spec(d: Seq<u8>) -> Seq<u8> {
    b64_chunks(d, ((d.len() + 2) / 3) as int)
}

fn b64_alphabet(v: u8) -> (r: u8)
    requires
        v < 64,
    ensures
        r == b64_char(v),
{
    if v < 26 {
        65 + v
    } else if v < 52 {
        71 + v
    } else if v < 62 {
        v - 4
    } else if v == 62 {
        43
    } else {
        47
    }
}

/// Base64 text (standard alphabet, `=` padding) of `data`.
pub fn base64_encode(data: &[u8]) -> (r: String)
    ensures
        r@ == ascii_chars(b64_encode_spec(data@)),
{
    let n = data.len();
    let chunks = n / 3 + if n % 3 == 0 { 0 } else { 1 };
    assert(chunks == (n + 2) / 3);
    let mut out: Vec<u8> = Vec::new();
    let mut k: usize = 0;
    while k < chunks
        invariant
            0 <= k <= chunks,
            chunks == (n + 2) / 3,
            n == data@.len(),
            out@ == b64_chunks(data@, k as int),
            forall|i: int| 0 <= i < out@.len() ==> out@[i] < 128,
        decreases chunks - k,
    {
        let start = 3 * k;
        let len = if n - start >= 3 { 3 } else { n - start };
        let b0 = data[start];
        let b1: u8 = if len > 1 { data[start + 1] } else { 0 };
        let b2: u8 = if len > 2 { data[start + 2] } else { 0 };
        assert(b0 >> 2u8 < 64 && ((b0 & 3) << 4u8) | (b1 >> 4u8) < 64 && ((b1 & 15) << 2u8) | (b2 >> 6u8) < 64 && b2 & 63
            < 64) by (bit_vector);
        let c0 = b64_alphabet(b0 >> 2);
        let c1 = b64_alphabet(((b0 & 3) << 4) | (b1 >> 4));
        let c2 = if len > 1 { b64_alphabet(((b1 & 15) << 2) | (b2 >> 6)) } else { 61u8 };
        let c3 = if len > 2 { b64_alphabet(b2 & 63) } else { 61u8 };
        out.push(c0);
        out.push(c1);
        out.push(c2);
        out.push(c3);
        proof {
            let c = chunk_of(data@, k as int);
            assert(c.len() == len);
            assert(c[0] == b0);
            assert(len > 1 ==> c[1] == b1);
            assert(len > 2 ==> c[2] == b2);
            assert(seq![c0, c1, c2, c3] =~= b64_chunk(c));
        }
        k = k + 1;
        assert(out@ =~= b64_chunks(data@, k as int));
    }
    ascii_bytes_to_string(out.as_slice())
}

/// The 6-bit value of a Base64 alphabet character.
pub open spec fn b64_val(c: u8) -> Option<u8> {
    if 65 <= c <= 90 {
        Some((c - 65) as u8)
    } else if 97 <= c <= 122 {
        Some((c - 71) as u8)
    } else if 48 <= c <= 57 {
        Some((c + 4) as u8)
    } else if c == 43 {
        Some(62)
    } else if c == 47 {
        Some(63)
    } else {
        None
    }
}

/// The whitespace that Base64 decoding skips: space, CR, LF and tab.
pub open spec fn b64_skip(c: u8) -> bool {
    c == 32 || c == 13 || c == 10 || c == 9
}

/// The 6-bit values of the alphabet characters of `t`, skipping whitespace;
/// `None` when `t` holds another character.
pub open spec fn sextets_of(t: Seq<u8>) -> Option<Seq<u8>>
    decreases t.len(),
{
    if t.len() == 0 {
        Some(Seq::empty())
    } else {
        match sextets_of(t.drop_last()) {
            None => None,
            Some(s) => if b64_skip(t.last()) {
                Some(s)
            } else {
                match b64_val(t.last()) {
                    Some(v) => Some(s.push(v)),
                    None => None,
                }
            },
        }
    }
}

/// The bytes carried by a run of 6-bit values: every value after the first of
/// each group of four completes one byte with the low bits of the value before it.
pub open spec fn sextets_to_bytes(v: Seq<u8>) -> Seq<u8>
    decreases v.len(),
{
    if v.len() <= 1 {
        Seq::empty()
    } else {
        let prev = sextets_to_bytes(v.drop_last());
        let a = v[v.len() - 2];
        let b = v.last();
        let pos = (v.len() - 1) % 4;
        if pos == 0 {
            prev
        } else if pos == 1 {
            prev.push(((a << 2) | (b >> 4)) as u8)
        } else if pos == 2 {
            prev.push((((a & 15) << 4) | (b >> 2)) as u8)
        } else {
            prev.push((((a & 3) << 6) | b) as u8)
        }
    }
}

/// The position of the first `=` in `t`, or its length when there is none.
pub open spec fn pad_index(t: Seq<u8>) -> int
    decreases t.len(),
{
    if t.len() == 0 {
        0
    } else if t[0] == 61 {
        0
    } else {
        1 + pad_index(t.drop_first())
    }
}

/// Base64 decoding of bytes: the text up to the first `=` must consist of
/// alphabet characters and skipped whitespace.
pub open spec fn b64_decode_bytes(t: Seq<u8>) -> Option<Seq<u8>> {
    match sextets_of(t.subrange(0, pad_index(t))) {
        Some(v) => Some(sextets_to_bytes(v)),
        None => None,
    }
}

proof fn lemma_pad_index(t: Seq<u8>, i: int)
    requires
        0 <= i <= t.len(),
        forall|j: int| 0 <= j < i ==> t[j] != 61,
        i == t.len() || t[i] == 61,
    ensures
        pad_index(t) == i,
    decreases i,
{
    if i > 0 {
        lemma_pad_index(t.drop_first(), i - 1);
    }
}

proof fn lemma_pad_index_at_least(t: Seq<u8>, i: int)
    requires
        0 <= i <= t.len(),
        forall|j: int| 0 <= j < i ==> t[j] != 61,
    ensures
        i <= pad_index(t) <= t.len(),
    decreases t.len(),
{
    if t.len() > 0 && t[0] != 61 {
        if i > 0 {
            lemma_pad_index_at_least(t.drop_first(), i - 1);
        } else {
            lemma_pad_index_at_least(t.drop_first(), 0);
        }
    }
}

proof fn lemma_sextets_none_extends(p: Seq<u8>, q: Seq<u8>)
    requires
        p.len() <= q.len(),
        q.subrange(0, p.len() as int) == p,
        sextets_of(p) is None,
    ensures
        sextets_of(q) is None,
    decreases q.len(),
{
    if q.len() > p.len() {
        assert(q.drop_last().subrange(0, p.len() as int) =~= p);
        lemma_sextets_none_extends(p, q.drop_last());
    } else {
        assert(q =~= p);
    }
}

/// One step of the streaming decoder adds the 6-bit value `val` to the bits it holds.
proof fn lemma_decoder_step(old_vals: Seq<u8>, val: u8, old_bits: u32, old_buffer: u32)
    requires
        (old_bits, old_buffer) == pending_bits(old_vals),
        val < 64,
        forall|j: int| 0 <= j < old_vals.len() ==> old_vals[j] < 64,
    ensures
        ({
            let v = old_vals.push(val);
            let nb = (old_buffer << 6u32) | (val as u32);
            let nbits = old_bits + 6;
            if nbits >= 8 {
                let rb = (nbits - 8) as u32;
                sextets_to_bytes(v) == sextets_to_bytes(old_vals).push((nb >> rb) as u8)
                    && pending_bits(v) == (rb, nb & (((1u32 << rb) - 1) as u32))
            } else {
                sextets_to_bytes(v) == sextets_to_bytes(old_vals) && pending_bits(v) == (nbits as u32, nb)
            }
        }),
{
    let v = old_vals.push(val);
    assert(v.drop_last() =~= old_vals);
    assert(v.last() == val);
    let pos = old_vals.len() % 4;
    if pos == 0 {
        assert(old_buffer == 0 && old_bits == 0);
        assert((0u32 << 6u32) | (val as u32) == val as u32) by (bit_vector);
    } else {
        let a = old_vals.last();
        assert(v[v.len() - 2] == a);
        assert(a < 64);
        if pos == 1 {
            assert(old_buffer == a as u32);
            assert(a < 64 && val < 64 ==> ((((a as u32) << 6u32) | (val as u32)) >> 4u32) as u8 == ((a << 2u8) | (val >> 4u8)) as u8
                && (((a as u32) << 6u32) | (val as u32)) & (((1u32 << 4u32) - 1) as u32) == (val & 15u8) as u32) by (bit_vector);
        } else if pos == 2 {
            assert(old_buffer == (a & 15) as u32);
            assert(a < 64 && val < 64 ==> (((((a & 15u8) as u32) << 6u32) | (val as u32)) >> 2u32) as u8 == (((a & 15u8) << 4u8)
                | (val >> 2u8)) as u8 && ((((a & 15u8) as u32) << 6u32) | (val as u32)) & (((1u32 << 2u32) - 1) as u32) == (val & 3u8) as u32)
                by (bit_vector);
        } else {
            assert(old_buffer == (a & 3) as u32);
            assert(a < 64 && val < 64 ==> (((((a & 3u8) as u32) << 6u32) | (val as u32)) >> 0u32) as u8 == (((a & 3u8) << 6u8)
                | val) as u8 && ((((a & 3u8) as u32) << 6u32) | (val as u32)) & (((1u32 << 0u32) - 1) as u32) == 0u32) by (bit_vector);
        }
    }
}

fn b64_value(c: u8) -> (r: Option<u8>)
    ensures
        r == b64_val(c),
{
    if 65 <= c && c <= 90 {
        Some(c - 65)
    } else if 97 <= c && c <= 122 {
        Some(c - 71)
    } else if 48 <= c && c <= 57 {
        Some(c + 4)
    } else if c == 43 {
        Some(62)
    } else if c == 47 {
        Some(63)
    } else {
        None
    }
}

/// The decoder's pending bits after the 6-bit values `v`: their count, and the
/// low bits of the last value that have not yet completed a byte.
pub open spec fn pending_bits(v: Seq<u8>) -> (u32, u32) {
    let pos = v.len() % 4;
    if pos == 0 {
        (0, 0)
    } else if pos == 1 {
        (6, v.last() as u32)
    } else if pos == 2 {
        (4, (v.last() & 15) as u32)
    } else {
        (2, (v.last() & 3) as u32)
    }
}

/// Decodes Base64 text (surrounding whitespace ignored, whitespace inside
/// skipped, decoding stops at the first `=`), or `None` on a character
/// outside the alphabet before that.
pub fn base64_decode(input: &str) -> (r: Option<Vec<u8>>)
    ensures
        match r {
            Some(v) => b64_decode_bytes(encode_utf8(trim(input@))) == Some(v@),
            None => b64_decode_bytes(encode_utf8(trim(input@))) is None,
        },
{
    let trimmed = str_trim(input);
    let t = trimmed.as_bytes();
    if t.len() == 0 {
        proof {
            assert(pad_index(t@) == 0);
            assert(t@.subrange(0, 0) =~= Seq::<u8>::empty());
        }
        return Some(Vec::new());
    }
    let mut buffer: u32 = 0;
    let mut bits_collected: u32 = 0;
    let mut output: Vec<u8> = Vec::new();
    let ghost mut vals: Seq<u8> = Seq::empty();
    let mut i: usize = 0;
    while i < t.len()
        invariant_except_break
            0 <= i <= t@.len(),
            t@ == encode_utf8(trim(input@)),
            forall|j: int| 0 <= j < i ==> t@[j] != 61,
            sextets_of(t@.subrange(0, i as int)) == Some(vals),
            forall|j: int| 0 <= j < vals.len() ==> vals[j] < 64,
            output@ == sextets_to_bytes(vals),
            (bits_collected, buffer) == pending_bits(vals),
        ensures
            0 <= i <= t@.len(),
            t@ == encode_utf8(trim(input@)),
            forall|j: int| 0 <= j < i ==> t@[j] != 61,
            i == t@.len() || t@[i as int] == 61,
            sextets_of(t@.subrange(0, i as int)) == Some(vals),
            output@ == sextets_to_bytes(vals),
        decreases t@.len() - i,
    {
        let b = t[i];
        if b == 61 {
            break;
        }
        let ghost prefix = t@.subrange(0, i as int);
        assert(t@.subrange(0, i + 1).drop_last() =~= prefix);
        if b == 32 || b == 13 || b == 10 || b == 9 {
            i = i + 1;
            continue;
        }
        let val = match b64_value(b) {
            Some(v) => v,
            None => {
                proof {
                    assert(sextets_of(t@.subrange(0, i + 1)) is None);
                    lemma_pad_index_at_least(t@, i + 1);
                    assert(t@.subrange(0, pad_index(t@)).subrange(0, i + 1) =~= t@.subrange(0, i + 1));
                    lemma_sextets_none_extends(t@.subrange(0, i + 1), t@.subrange(0, pad_index(t@)));
                }
                return None;
            },
        };
        let ghost old_vals = vals;
        proof {
            vals = vals.push(val);
        }
        let old_buffer = buffer;
        let old_bits = bits_collected;
        buffer = (buffer << 6u32) | (val as u32);
        bits_collected = bits_collected + 6;
        if bits_collected >= 8 {
            bits_collected = bits_collected - 8;
            assert(bits_collected <= 6);
            assert(bits_collected <= 6 ==> (1u32 << bits_collected) >= 1u32) by (bit_vector);
            let byte = (buffer >> bits_collected) as u8;
            output.push(byte);
            buffer = buffer & ((1u32 << bits_collected) - 1);
        }
        proof {
            lemma_decoder_step(old_vals, val, old_bits, old_buffer);
            assert(sextets_of(t@.subrange(0, i + 1)) == Some(vals));
        }
        i = i + 1;
    }
    proof {
        lemma_pad_index(t@, i as int);
    }
    Some(output)
}

/// The 6-bit values of a chunk of one to three bytes (two to four values).
pub open spec fn chunk_sextets(c: Seq<u8>) -> Seq<u8> {
    let b0 = c[0];
    let b1: u8 = if c.len() > 1 { c[1] } else { 0 };
    let b2: u8 = if c.len() > 2 { c[2] } else { 0 };
    seq![b0 >> 2, ((b0 & 3) << 4) | (b1 >> 4), ((b1 & 15) << 2) | (b2 >> 6), b2 & 63].subrange(0, c.len() + 1 as int)
}

/// The alphabet characters of 6-bit values.
pub open spec fn b64_chars(v: Seq<u8>) -> Seq<u8> {
    v.map_values(|x: u8| b64_char(x))
}

proof fn lemma_b64_char(v: u8)
    requires
        v < 64,
    ensures
        b64_val(b64_char(v)) == Some(v),
        b64_char(v) != 61,
        !b64_skip(b64_char(v)),
        b64_char(v) < 128,
{
}

proof fn lemma_chunk(c: Seq<u8>)
    requires
        1 <= c.len() <= 3,
    ensures
        chunk_sextets(c).len() == c.len() + 1,
        forall|j: int| 0 <= j < chunk_sextets(c).len() ==> #[trigger] chunk_sextets(c)[j] < 64,
        sextets_to_bytes(chunk_sextets(c)) == c,
        b64_chunk(c) == b64_chars(chunk_sextets(c)) + Seq::new((3 - c.len()) as nat, |i: int| 61u8),
{
    let b0 = c[0];
    let b1: u8 = if c.len() > 1 { c[1] } else { 0 };
    let b2: u8 = if c.len() > 2 { c[2] } else { 0 };
    let v = chunk_sextets(c);
    assert(b0 >> 2u8 < 64 && ((b0 & 3) << 4u8) | (b1 >> 4u8) < 64 && ((b1 & 15) << 2u8) | (b2 >> 6u8) < 64 && b2 & 63 < 64)
        by (bit_vector);
    let s0 = b0 >> 2u8;
    let s1 = ((b0 & 3) << 4u8) | (b1 >> 4u8);
    let s2 = ((b1 & 15) << 2u8) | (b2 >> 6u8);
    let s3 = b2 & 63;
    assert(((s0 << 2u8) | (s1 >> 4u8)) as u8 == b0) by (bit_vector)
        requires
            s0 == b0 >> 2u8,
            s1 == ((b0 & 3) << 4u8) | (b1 >> 4u8),
    ;
    assert((((s1 & 15) << 4u8) | (s2 >> 2u8)) as u8 == b1) by (bit_vector)
        requires
            s1 == ((b0 & 3) << 4u8) | (b1 >> 4u8),
            s2 == ((b1 & 15) << 2u8) | (b2 >> 6u8),
    ;
    assert((((s2 & 3) << 6u8) | s3) as u8 == b2) by (bit_vector)
        requires
            s2 == ((b1 & 15) << 2u8) | (b2 >> 6u8),
            s3 == b2 & 63,
    ;
    reveal_with_fuel(sextets_to_bytes, 4);
    if c.len() == 1 {
        assert(v.drop_last() =~= seq![s0]);
        assert(sextets_to_bytes(v) =~= c);
    } else if c.len() == 2 {
        assert(v.drop_last() =~= seq![s0, s1]);
        assert(v.drop_last().drop_last() =~= seq![s0]);
        assert(sextets_to_bytes(v) =~= c);
    } else {
        assert(v.drop_last() =~= seq![s0, s1, s2]);
        assert(v.drop_last().drop_last() =~= seq![s0, s1]);
        assert(v.drop_last().drop_last().drop_last() =~= seq![s0]);
        assert(sextets_to_bytes(v) =~= c);
    }
    assert(b64_chunk(c) =~= b64_chars(chunk_sextets(c)) + Seq::new((3 - c.len()) as nat, |i: int| 61u8));
}

/// Appending alphabet characters appends their values.
proof fn lemma_sextets_append(p: Seq<u8>, sp: Seq<u8>, q: Seq<u8>)
    requires
        sextets_of(p) == Some(sp),
        forall|j: int| 0 <= j < q.len() ==> #[trigger] q[j] < 64,
    ensures
        sextets_of(p + b64_chars(q)) == Some(sp + q),
    decreases q.len(),
{
    if q.len() == 0 {
        assert(p + b64_chars(q) =~= p);
        assert(sp + q =~= sp);
    } else {
        lemma_sextets_append(p, sp, q.drop_last());
        let t = p + b64_chars(q);
        assert(t.drop_last() =~= p + b64_chars(q.drop_last()));
        lemma_b64_char(q.last());
        assert(t.last() == b64_char(q.last()));
        assert((sp + q.drop_last()).push(q.last()) =~= sp + q);
    }
}

/// The bytes of values whose first part is a whole number of groups are the
/// bytes of each part, one after the other.
proof fn lemma_bytes_concat(v: Seq<u8>, w: Seq<u8>)
    requires
        v.len() % 4 == 0,
    ensures
        sextets_to_bytes(v + w) == sextets_to_bytes(v) + sextets_to_bytes(w),
    decreases w.len(),
{
    if w.len() == 0 {
        assert(v + w =~= v);
    } else {
        lemma_bytes_concat(v, w.drop_last());
        assert((v + w).drop_last() =~= v + w.drop_last());
        if w.len() >= 2 {
            assert((v + w)[(v + w).len() - 2] == w[w.len() - 2]);
        }
    }
}

/// The Base64 text and the values of the first `k` chunks.
pub open spec fn sextets_chunks(d: Seq<u8>, k: int) -> Seq<u8>
    decreases k,
{
    if k <= 0 {
        Seq::empty()
    } else {
        sextets_chunks(d, k - 1) + chunk_sextets(chunk_of(d, k - 1))
    }
}

proof fn lemma_full_chunks(d: Seq<u8>, k: int)
    requires
        0 <= k,
        3 * k <= d.len(),
    ensures
        b64_chunks(d, k) == b64_chars(sextets_chunks(d, k)),
        sextets_chunks(d, k).len() == 4 * k,
        forall|j: int| 0 <= j < sextets_chunks(d, k).len() ==> #[trigger] sextets_chunks(d, k)[j] < 64,
        sextets_to_bytes(sextets_chunks(d, k)) == d.subrange(0, 3 * k),
    decreases k,
{
    if k > 0 {
        lemma_full_chunks(d, k - 1);
        let c = chunk_of(d, k - 1);
        lemma_chunk(c);
        let prev = sextets_chunks(d, k - 1);
        assert(b64_chars(prev + chunk_sextets(c)) =~= b64_chars(prev) + b64_chars(chunk_sextets(c)));
        assert(b64_chunk(c) =~= b64_chars(chunk_sextets(c)));
        lemma_bytes_concat(prev, chunk_sextets(c));
        assert(d.subrange(0, 3 * k) =~= d.subrange(0, 3 * (k - 1)) + c);
    } else {
        assert(d.subrange(0, 0) =~= Seq::<u8>::empty());
    }
}

/// Decoding the Base64 text of bytes gives the bytes back.
pub proof fn lemma_base64_roundtrip(d: Seq<u8>)
    ensures
        b64_decode_bytes(encode_utf8(trim(ascii_chars(b64_encode_spec(d))))) == Some(d),
{
    let n = d.len() as int;
    let m = (n + 2) / 3;
    let t = b64_encode_spec(d);
    let full = n / 3;
    lemma_full_chunks(d, full);
    let vf = sextets_chunks(d, full);
    lemma_sextets_append(Seq::empty(), Seq::empty(), vf);
    assert(Seq::<u8>::empty() + b64_chars(vf) =~= b64_chars(vf));
    assert(Seq::<u8>::empty() + vf =~= vf);
    let (alpha, vals) = if n % 3 == 0 {
        assert(m == full);
        (t, vf)
    } else {
        assert(m == full + 1);
        let c = chunk_of(d, full);
        lemma_chunk(c);
        let vc = chunk_sextets(c);
        lemma_sextets_append(b64_chars(vf), vf, vc);
        assert(t == b64_chars(vf) + b64_chunk(c));
        (b64_chars(vf) + b64_chars(vc), vf + vc)
    };
    // the text is ASCII, has no whitespace at its ends, and `=` only after `alpha`
    assert forall|j: int| 0 <= j < t.len() implies #[trigger] t[j] < 128 && !b64_skip(t[j]) && (t[j] == 61 <==> j >= alpha.len()) by {
        if j < 4 * full {
            assert(t[j] == b64_chars(vf)[j]);
            lemma_b64_char(vf[j]);
        } else {
            let c = chunk_of(d, full);
            let vc = chunk_sextets(c);
            assert(t[j] == b64_chunk(c)[j - 4 * full]);
            if j - 4 * full < vc.len() {
                lemma_b64_char(vc[j - 4 * full]);
            }
        }
    }
    let chars = ascii_chars(t);
    assert(vstd::utf8::is_ascii_chars(chars));
    vstd::utf8::is_ascii_chars_encode_utf8(chars);
    assert(encode_utf8(chars) =~= t);
    if t.len() > 0 {
        assert(!crate::text::is_white_space(chars[0]));
        assert(!crate::text::is_white_space(chars.last()));
    }
    crate::text::lemma_trim_noop(chars);
    lemma_pad_index(t, alpha.len() as int);
    assert(t.subrange(0, alpha.len() as int) =~= alpha);
    if n % 3 == 0 {
        assert(d.subrange(0, n) =~= d);
    } else {
        let c = chunk_of(d, full);
        lemma_bytes_concat(vf, chunk_sextets(c));
        assert(d =~= d.subrange(0, 3 * full) + c);
    }
}

/// The key-file option given as the command-line argument at `i` or later:
/// `--key-file PATH` (when a value follows) or `--key-file=PATH`, first one wins.
pub open spec fn key_file_arg_from(args: Seq<Seq<char>>, i: int) -> Option<Seq<char>>
    decreases args.len() - i,
{
    if i < 0 || i >= args.len() {
        None
    } else if args[i] == "--key-file"@ && i + 1 < args.len() {
        Some(args[i + 1])
    } else if "--key-file="@.len() <= args[i].len() && args[i].subrange(0, "--key-file="@.len() as int) == "--key-file="@ {
        Some(args[i].subrange("--key-file="@.len() as int, args[i].len() as int))
    } else {
        key_file_arg_from(args, i + 1)
    }
}

/// The texts of the arguments.
pub open spec fn arg_texts(args: Seq<String>) -> Seq<Seq<char>> {
    args.map_values(|a: String| a@)
}

/// The path given with `--key-file PATH` or `--key-file=PATH`, if any.
pub fn parse_key_file_arg(args: &[String]) -> (r: Option<String>)
    ensures
        opt_text(r) == key_file_arg_from(arg_texts(args@), 0),
{
    let n = args.len();
    let mut i: usize = 0;
    while i < n
        invariant
            0 <= i <= n,
            n == args@.len(),
            key_file_arg_from(arg_texts(args@), 0) == key_file_arg_from(arg_texts(args@), i as int),
        decreases n - i,
    {
        let a = args[i].as_str();
        proof {
            assert(arg_texts(args@)[i as int] == a@);
        }
        if str_equals(a, "--key-file") && i + 1 < n {
            proof {
                assert(arg_texts(args@)[i + 1] == args@[i + 1]@);
            }
            return Some(args[i + 1].clone());
        }
        if str_starts_with(a, "--key-file=") {
            let prefix_len = "--key-file=".unicode_len();
            return Some(str_from(a, prefix_len));
        }
        i = i + 1;
    }
    None
}

/// The parent directory of a path (`Path::parent`).
pub uninterp spec fn path_parent(p: Seq<char>) -> Option<Seq<char>>;

/// A directory joined with a file name (`Path::join`).
pub uninterp spec fn path_join(dir: Seq<char>, name: Seq<char>) -> Seq<char>;

/// A path with its extension replaced (`Path::with_extension`).
pub uninterp spec fn path_with_extension(p: Seq<char>, ext: Seq<char>) -> Seq<char>;

/// Whether two paths have the same components (`Path == Path`).
pub uninterp spec fn path_eq(a: Seq<char>, b: Seq<char>) -> bool;

/// `Path::new(p).parent()`, as text.
#[verifier::external_body]
fn parent_of(p: &str) -> (r: Option<String>)
    ensures
        opt_text(r) == path_parent(p@),
{
    std::path::Path::new(p).parent().map(|q| q.to_string_lossy().into_owned())
}

/// `Path::new(dir).join(name)`, as text.
#[verifier::external_body]
fn join_path(dir: &str, name: &str) -> (r: String)
    ensures
        r@ == path_join(dir@, name@),
{
    std::path::Path::new(dir).join(name).to_string_lossy().into_owned()
}

/// No character of `ext` is a path separator (`/`, or `\\` where that separates too).
pub open spec fn separator_free(ext: Seq<char>) -> bool {
    forall|i: int| 0 <= i < ext.len() ==> ext[i] != '/' && ext[i] != '\\'
}

/// `Path::new(p).with_extension(ext)`, as text. `PathBuf::set_extension`, which
/// it calls, panics on an extension that holds a path separator, so such an
/// extension is left out.
#[verifier::external_body]
fn with_extension(p: &str, ext: &str) -> (r: String)
    requires
        separator_free(ext@),
    ensures
        r@ == path_with_extension(p@, ext@),
{
    std::path::Path::new(p).with_extension(ext).to_string_lossy().into_owned()
}

/// `Path::new(a) == Path::new(b)`: comparison by components.
#[verifier::external_body]
fn same_path(a: &str, b: &str) -> (r: bool)
    ensures
        r == path_eq(a@, b@),
{
    std::path::Path::new(a) == std::path::Path::new(b)
}

/// The parent directory of a path, empty when there is none.
pub open spec fn parent_or_empty(p: Seq<char>) -> Seq<char> {
    match path_parent(p) {
        Some(q) => q,
        None => Seq::empty(),
    }
}

/// `name` in the directory of `key_path`, or `name` alone when that directory is empty.
pub open spec fn sibling_path(key_path: Seq<char>, name: Seq<char>) -> Seq<char> {
    if parent_or_empty(key_path).len() == 0 {
        name
    } else {
        path_join(parent_or_empty(key_path), name)
    }
}

/// `key_path` with extension `ext`, unless that is `key_path` itself; then `fallback`
/// next to the key file.
pub open spec fn companion_path(key_path: Seq<char>, ext: Seq<char>, fallback: Seq<char>) -> Seq<char> {
    if !path_eq(path_with_extension(key_path, ext), key_path) {
        path_with_extension(key_path, ext)
    } else {
        sibling_path(key_path, fallback)
    }
}

fn sibling(key_path: &str, name: &str) -> (r: String)
    ensures
        r@ == sibling_path(key_path@, name@),
{
    let parent = match parent_of(key_path) {
        Some(p) => p,
        None => String::new(),
    };
    if parent.as_str().is_empty() {
        name.to_owned()
    } else {
        join_path(parent.as_str(), name)
    }
}

fn companion(key_path: &str, ext: &str, fallback: &str) -> (r: String)
    requires
        separator_free(ext@),
    ensures
        r@ == companion_path(key_path@, ext@, fallback@),
{
    let stem = with_extension(key_path, ext);
    if !same_path(stem.as_str(), key_path) {
        return stem;
    }
    sibling(key_path, fallback)
}

/// The public-key file: `relay.pub` next to the key file.
pub fn derive_pubkey_path(key_path: &str) -> (r: String)
    ensures
        r@ == sibling_path(key_path@, "relay.pub"@),
{
    sibling(key_path, "relay.pub")
}

/// The token file: the key file with extension `token`, or `relay.token` next to it.
pub fn derive_token_path(key_path: &str) -> (r: String)
    ensures
        r@ == companion_path(key_path@, "token"@, "relay.token"@),
{
    proof {
        reveal_strlit("token");
    }
    companion(key_path, "token", "relay.token")
}

/// The credentials file: the key file with extension `json`, or `relay.json` next to it.
pub fn derive_relay_json_path(key_path: &str) -> (r: String)
    ensures
        r@ == companion_path(key_path@, "json"@, "relay.json"@),
{
    proof {
        reveal_strlit("json");
    }
    companion(key_path, "json", "relay.json")
}

/// The text of the error for a stored key of `raw_len` bytes that is none of the accepted forms.
pub open spec fn invalid_key_text(raw_len: usize) -> Seq<char> {
    "expected 32 bytes (raw, 64-char hex, or base64), got "@ + crate::text::decimal_text(raw_len as nat) + " bytes"@
}

/// The error text for a stored key of `raw_len` bytes.
fn invalid_key_message(raw_len: usize) -> (r: String)
    ensures
        r@ == invalid_key_text(raw_len),
{
    let a = crate::text::concat_text(
        "expected 32 bytes (raw, 64-char hex, or base64), got ",
        crate::text::decimal_string(raw_len as u64).as_str(),
    );
    crate::text::concat_text(a.as_str(), " bytes")
}

/// All characters are ASCII hexadecimal digits.
pub open spec fn all_ascii_hex(t: Seq<char>) -> bool {
    forall|i: int| 0 <= i < t.len() ==> ('0' <= #[trigger] t[i] <= '9' || 'a' <= t[i] <= 'f' || 'A' <= t[i] <= 'F')
}

fn is_all_ascii_hex(t: &str) -> (r: bool)
    ensures
        r == all_ascii_hex(t@),
{
    let n = t.unicode_len();
    let mut i: usize = 0;
    while i < n
        invariant
            0 <= i <= n,
            n == t@.len(),
            forall|j: int| 0 <= j < i ==> ('0' <= #[trigger] t@[j] <= '9' || 'a' <= t@[j] <= 'f' || 'A' <= t@[j] <= 'F'),
        decreases n - i,
    {
        let c = t.get_char(i);
        if !(('0' <= c && c <= '9') || ('a' <= c && c <= 'f') || ('A' <= c && c <= 'F')) {
            return false;
        }
        i = i + 1;
    }
    true
}

/// What a stored private key file holds: 32 raw bytes, or (as trimmed text) 64
/// hexadecimal digits or Base64 of 32 bytes.
pub open spec fn private_key_of(raw: Seq<u8>) -> Option<Seq<u8>> {
    let text = trim(lossy_text(raw));
    let hex = hex_decode_bytes(encode_utf8(trim(text)));
    let b64 = b64_decode_bytes(encode_utf8(trim(text)));
    if raw.len() == 32 {
        Some(raw)
    } else if encode_utf8(text).len() as usize == 64 && all_ascii_hex(text) && hex is Some && hex.unwrap().len() == 32 {
        hex
    } else if b64 is Some && b64.unwrap().len() == 32 {
        b64
    } else {
        None
    }
}

/// Hexadecimal digits are safe to cut into pairs.
proof fn lemma_hex_text_safe(t: Seq<char>)
    requires
        all_ascii_hex(t),
        trim(t) == t,
    ensures
        hex_decode_safe(t),
{
    assert(vstd::utf8::is_ascii_chars(t));
    vstd::utf8::is_ascii_chars_encode_utf8(t);
    let b = encode_utf8(t);
    assert forall|i: int| 0 <= i < b.len() implies !vstd::utf8::is_continuation_byte(#[trigger] b[i]) by {
        assert(t[i] as u8 == b[i]);
        assert((t[i] as u32) < 128);
    }
}

/// Reads a stored private key: 32 raw bytes, 64 hexadecimal digits, or Base64 of 32 bytes.
pub fn parse_private_key_bytes(raw: &[u8]) -> (r: Result<Vec<u8>, KeyError>)
    ensures
        match r {
            Ok(k) => private_key_of(raw@) == Some(k@),
            Err(KeyError::InvalidKey(m)) => private_key_of(raw@) is None && m@ == invalid_key_text(raw@.len() as usize),
            Err(_) => false,
        },
{
    if raw.len() == 32 {
        let mut copy: Vec<u8> = Vec::new();
        crate::protocol::wire::put_slice(&mut copy, raw);
        return Ok(copy);
    }
    let lossy = string_from_utf8_lossy(raw);
    let text = str_trim(lossy.as_str());
    if text.len() == 64 && is_all_ascii_hex(text) {
        proof {
            if text@.len() > 0 {
                assert(!crate::text::is_white_space(text@[0]));
                assert(!crate::text::is_white_space(text@.last()));
            }
            crate::text::lemma_trim_noop(text@);
            lemma_hex_text_safe(text@);
        }
        match hex_decode(text) {
            Some(decoded) => {
                if decoded.len() == 32 {
                    return Ok(decoded);
                }
            },
            None => {},
        }
    }
    match base64_decode(text) {
        Some(decoded) => {
            if decoded.len() == 32 {
                return Ok(decoded);
            }
        },
        None => {},
    }
    Err(KeyError::InvalidKey(invalid_key_message(raw.len())))
}

/// What a stored token value holds: nothing when blank, its hexadecimal
/// decoding when that is non-empty, else the UTF-8 bytes of the trimmed text.
pub open spec fn saved_token_of(raw: Seq<char>) -> Option<Seq<u8>> {
    let value = trim(raw);
    let hex = hex_decode_bytes(encode_utf8(trim(value)));
    if value.len() == 0 {
        None
    } else if hex is Some && hex.unwrap().len() > 0 {
        hex
    } else {
        Some(encode_utf8(value))
    }
}

/// Reads a saved token value: hexadecimal when it decodes to something, raw
/// text otherwise; a blank value is no token.
pub fn parse_saved_token_value(raw: &str) -> (r: Option<Vec<u8>>)
    requires
        hex_decode_safe(trim(raw@)),
    ensures
        match r {
            Some(v) => saved_token_of(raw@) == Some(v@),
            None => saved_token_of(raw@) is None,
        },
{
    let value = str_trim(raw);
    if value.is_empty() {
        return None;
    }
    match hex_decode(value) {
        Some(decoded) => {
            if decoded.len() > 0 {
                return Some(decoded);
            }
        },
        None => {},
    }
    let mut bytes: Vec<u8> = Vec::new();
    crate::protocol::wire::put_slice(&mut bytes, value.as_bytes());
    Some(bytes)
}

/// The X25519 public key of a 32-byte private key.
pub uninterp spec fn x25519_public_key(private_key: Seq<u8>) -> Seq<u8>;

/// `DefaultResolver.resolve_dh(&DHChoice::Curve25519)`, `set(private_key)`,
/// `pubkey()`: the default resolver always provides Curve25519, whose public
/// key is the 32-byte X25519 image of the private key.
#[verifier::external_body]
fn curve25519_public_key(private_key: &[u8]) -> (r: Option<Vec<u8>>)
    requires
        private_key@.len() == 32,
    ensures
        r is Some,
        r is Some ==> r->Some_0@ == x25519_public_key(private_key@),
        r is Some ==> r->Some_0@.len() == 32,
{
    match DefaultResolver.resolve_dh(&DHChoice::Curve25519) {
        Some(mut dh) => {
            dh.set(private_key);
            Some(dh.pubkey().to_vec())
        },
        None => None,
    }
}

/// `snow::Error::Init(InitStage::GetDhImpl)`, the error for a key that cannot be used.
/// Its contract says nothing of the value: `snow::Error` is declared opaque,
/// so no contract here can name its variants.
#[verifier::external_body]
fn dh_unavailable() -> (r: snow::Error) {
    snow::Error::Init(snow::error::InitStage::GetDhImpl)
}

/// `snow::Builder::new(NOISE_PATTERN.parse()?).generate_keypair()?`: a fresh
/// random key pair; snow draws 32 random private bytes and derives the public
/// key from them with the same X25519 computation as `Dh::set`.
#[verifier::external_body]
fn snow_generate_keypair() -> (r: Result<(Vec<u8>, Vec<u8>), snow::Error>)
    ensures
        r is Ok ==> r->Ok_0.0@.len() == 32,
        r is Ok ==> r->Ok_0.1@ == x25519_public_key(r->Ok_0.0@),
        r is Ok ==> r->Ok_0.1@.len() == 32,
{
    let params: snow::params::NoiseParams = NOISE_PATTERN.parse()?;
    let keypair = snow::Builder::new(params).generate_keypair()?;
    Ok((keypair.private, keypair.public))
}

/// The X25519 public key of a private key; only 32-byte keys are accepted,
/// any other length fails with `snow::Error::Init(InitStage::GetDhImpl)`.
pub fn derive_public_key(private_key: &[u8]) -> (r: Result<Vec<u8>, snow::Error>)
    ensures
        private_key@.len() != 32 ==> r is Err,
        private_key@.len() == 32 ==> (r matches Ok(pk) && pk@ == x25519_public_key(private_key@)),
{
    if private_key.len() != 32 {
        return Err(dh_unavailable());
    }
    match curve25519_public_key(private_key) {
        Some(pk) => Ok(pk),
        None => Err(dh_unavailable()),
    }
}

/// A fresh random key pair `(private, public)` for the relay's Noise pattern.
pub fn generate_keypair() -> (r: Result<(Vec<u8>, Vec<u8>), snow::Error>)
    ensures
        r matches Ok((sk, pk)) ==> sk@.len() == 32 && pk@ == x25519_public_key(sk@) && pk@.len() == 32,
{
    snow_generate_keypair()
}

/// A relay key pair with its Base64 public key and the files it lives in.
/// There is no `Debug`: `debug_text` gives a rendering without the private key.
#[derive(Clone, PartialEq, Eq)]
pub struct KeyPair {
    pub private_key: Vec<u8>,
    pub public_key: Vec<u8>,
    pub public_key_base64: String,
    pub key_path: String,
    pub pub_path: String,
}

/// The rendering of a key pair for logs: the Base64 public key and both
/// paths, the private key replaced by `[REDACTED]`.
pub open spec fn keypair_debug_text(k: KeyPair) -> Seq<char> {
    "KeyPair { public_key_base64: "@ + crate::text::debug_quoted(k.public_key_base64@) + ", key_path: "@
        + crate::text::debug_quoted(k.key_path@) + ", pub_path: "@ + crate::text::debug_quoted(k.pub_path@)
        + ", private_key: \"[REDACTED]\" }"@
}

impl KeyPair {
    /// A rendering for logs that leaves the private key out.
    pub fn debug_text(&self) -> (r: String)
        ensures
            r@ == keypair_debug_text(*self),
    {
        let a = crate::text::concat_text(
            "KeyPair { public_key_base64: ",
            crate::text::str_debug(self.public_key_base64.as_str()).as_str(),
        );
        let b = crate::text::concat_text(a.as_str(), ", key_path: ");
        let c = crate::text::concat_text(b.as_str(), crate::text::str_debug(self.key_path.as_str()).as_str());
        let d = crate::text::concat_text(c.as_str(), ", pub_path: ");
        let e = crate::text::concat_text(d.as_str(), crate::text::str_debug(self.pub_path.as_str()).as_str());
        let r = crate::text::concat_text(e.as_str(), ", private_key: \"[REDACTED]\" }");
        assert(r@ =~= keypair_debug_text(*self));
        r
    }
}

/// The rendering of a key pair never shows its private key: key pairs that
/// differ only there render alike.
pub proof fn lemma_keypair_debug_hides_private_key(a: KeyPair, b: KeyPair)
    requires
        a.public_key_base64@ == b.public_key_base64@,
        a.key_path@ == b.key_path@,
        a.pub_path@ == b.pub_path@,
    ensures
        keypair_debug_text(a) == keypair_debug_text(b),
{
}

/// The default key file: the system location when the key is there or its
/// directory exists, else the fallback in the working directory.
pub fn default_key_path(key_exists: bool, key_dir_exists: bool) -> (r: String)
    ensures
        r@ == (if key_exists || key_dir_exists { DEFAULT_KEY_FILE@ } else { FALLBACK_KEY_FILE@ }),
{
    if key_exists || key_dir_exists {
        DEFAULT_KEY_FILE.to_string()
    } else {
        FALLBACK_KEY_FILE.to_string()
    }
}

/// The key file to use: the command-line option, else the environment's
/// value when it is not blank (trimmed), else `default_path`.
pub fn resolve_key_file_path(args: &[String], env_key_file: Option<&str>, default_path: String) -> (r: String)
    ensures
        r@ == match key_file_arg_from(arg_texts(args@), 0) {
            Some(p) => p,
            None => match env_key_file {
                Some(v) => if trim(v@).len() > 0 { trim(v@) } else { default_path@ },
                None => default_path@,
            },
        },
{
    match parse_key_file_arg(args) {
        Some(p) => return p,
        None => {},
    }
    match env_key_file {
        Some(v) => {
            let trimmed = str_trim(v);
            if !trimmed.is_empty() {
                return trimmed.to_string();
            }
        },
        None => {},
    }
    default_path
}

/// The JSON file that records the public key and the auth token.
pub open spec fn relay_json_text(public_key_base64: Seq<char>, token_hex: Seq<char>) -> Seq<char> {
    "{\n  \"public_key_base64\": \""@ + public_key_base64 + "\",\n  \"secret_token_hex\": \""@ + token_hex
        + "\"\n}\n"@
}

/// The content of the JSON file that records the public key and the auth token.
pub fn relay_json_content(public_key_base64: &str, token_hex: &str) -> (r: String)
    ensures
        r@ == relay_json_text(public_key_base64@, token_hex@),
{
    let a = crate::text::concat_text("{\n  \"public_key_base64\": \"", public_key_base64);
    let b = crate::text::concat_text(a.as_str(), "\",\n  \"secret_token_hex\": \"");
    let c = crate::text::concat_text(b.as_str(), token_hex);
    let r = crate::text::concat_text(c.as_str(), "\"\n}\n");
    assert(r@ =~= relay_json_text(public_key_base64@, token_hex@));
    r
}

/// A text followed by a line break: the content of the token and public-key files.
pub fn line_text(s: &str) -> (r: String)
    ensures
        r@ == s@ + "\n"@,
{
    crate::text::concat_text(s, "\n")
}

/// The public-key file named after the key file (its extension replaced by
/// `pub`), when that is not already `pub_path`.
pub fn extra_public_key_path(key_path: &str, pub_path: &str) -> (r: Option<String>)
    ensures
        match r {
            Some(p) => p@ == path_with_extension(key_path@, "pub"@) && !path_eq(p@, pub_path@),
            None => path_eq(path_with_extension(key_path@, "pub"@), pub_path@),
        },
{
    proof {
        reveal_strlit("pub");
    }
    let stem = with_extension(key_path, "pub");
    if same_path(stem.as_str(), pub_path) {
        None
    } else {
        Some(stem)
    }
}

/// The key pair stored in a key file with these bytes: the private key read
/// by `parse_private_key_bytes`, its public key, and the public-key file next
/// to the key file.
pub fn keypair_from_key_file(raw: &[u8], key_path: &str) -> (r: Result<KeyPair, KeyError>)
    ensures
        private_key_of(raw@) is None ==> (r matches Err(KeyError::InvalidKey(m)) && m@ == invalid_key_text(
            raw@.len() as usize,
        )),
        private_key_of(raw@) matches Some(k) ==> (r matches Ok(kp) && kp.private_key@ == k && kp.public_key@
            == x25519_public_key(k) && kp.public_key_base64@ == ascii_chars(b64_encode_spec(kp.public_key@))
            && kp.key_path@ == key_path@ && kp.pub_path@ == sibling_path(key_path@, "relay.pub"@)),
{
    let private_key = match parse_private_key_bytes(raw) {
        Ok(k) => k,
        Err(e) => return Err(e),
    };
    let public_key = match derive_public_key(private_key.as_slice()) {
        Ok(p) => p,
        Err(e) => return Err(KeyError::Snow(e)),
    };
    let public_key_base64 = base64_encode(public_key.as_slice());
    Ok(KeyPair {
        private_key,
        public_key,
        public_key_base64,
        key_path: key_path.to_string(),
        pub_path: derive_pubkey_path(key_path),
    })
}

/// A fresh random key pair for the key file `key_path`, with the public-key
/// file next to it.
pub fn new_keypair(key_path: &str) -> (r: Result<KeyPair, KeyError>)
    ensures
        r matches Ok(kp) ==> kp.private_key@.len() == 32 && kp.public_key@ == x25519_public_key(kp.private_key@)
            && kp.public_key_base64@ == ascii_chars(b64_encode_spec(kp.public_key@)) && kp.key_path@ == key_path@
            && kp.pub_path@ == sibling_path(key_path@, "relay.pub"@),
        r is Err ==> (r matches Err(KeyError::Snow(_))),
{
    let (private_key, public_key) = match generate_keypair() {
        Ok(pair) => pair,
        Err(e) => return Err(KeyError::Snow(e)),
    };
    let public_key_base64 = base64_encode(public_key.as_slice());
    Ok(KeyPair {
        private_key,
        public_key,
        public_key_base64,
        key_path: key_path.to_string(),
        pub_path: derive_pubkey_path(key_path),
    })
}

/// What a JSON text holds under a key (the first occurrence of the quoted key
/// and its colon): nothing, a value whose quotes are not both there, or the
/// text between the next two double quotes.
pub enum JsonField {
    Missing,
    Broken,
    Value(Seq<char>),
}

/// What `content` holds under `key`.
pub open spec fn json_field(content: Seq<char>, key: Seq<char>) -> JsonField {
    match find_from(content, key, 0) {
        None => JsonField::Missing,
        Some(p) => {
            let rest = content.subrange(p + key.len(), content.len() as int);
            match find_from(rest, "\""@, 0) {
                None => JsonField::Broken,
                Some(q) => {
                    let tail = rest.subrange(q + 1, rest.len() as int);
                    match find_from(tail, "\""@, 0) {
                        None => JsonField::Broken,
                        Some(e) => JsonField::Value(tail.subrange(0, e)),
                    }
                },
            }
        },
    }
}

/// A field lookup in executable form.
enum FieldLookup {
    Missing,
    Broken,
    Value(String),
}

spec fn field_view(f: FieldLookup) -> JsonField {
    match f {
        FieldLookup::Missing => JsonField::Missing,
        FieldLookup::Broken => JsonField::Broken,
        FieldLookup::Value(v) => JsonField::Value(v@),
    }
}

fn lookup_field(content: &str, key: &str) -> (r: FieldLookup)
    ensures
        field_view(r) == json_field(content@, key@),
{
    let p = match find_text(content, key) {
        Some(p) => p,
        None => return FieldLookup::Missing,
    };
    proof {
        lemma_find_from(content@, key@, 0);
    }
    let key_len = key.unicode_len();
    let content_len = content.unicode_len();
    assert(p + key_len <= content_len);
    let rest = str_from(content, p + key_len);
    let q = match find_text(rest.as_str(), "\"") {
        Some(q) => q,
        None => return FieldLookup::Broken,
    };
    proof {
        lemma_find_from(rest@, "\""@, 0);
        reveal_strlit("\"");
    }
    let rest_len = rest.as_str().unicode_len();
    assert(q + 1 <= rest_len);
    let tail = str_from(rest.as_str(), q + 1);
    let e = match find_text(tail.as_str(), "\"") {
        Some(e) => e,
        None => return FieldLookup::Broken,
    };
    proof {
        lemma_find_from(tail@, "\""@, 0);
    }
    FieldLookup::Value(tail.as_str().substring_char(0, e).to_string())
}

/// The quoted key of the hexadecimal token in the relay JSON file.
pub open spec fn token_hex_key() -> Seq<char> {
    "\"secret_token_hex\":"@
}

/// The quoted key of the token in the relay JSON file.
pub open spec fn token_key() -> Seq<char> {
    "\"secret_token\":"@
}

/// The token a JSON field yields, if any.
pub open spec fn field_token(f: JsonField) -> Option<Seq<u8>> {
    match f {
        JsonField::Value(v) => saved_token_of(v),
        _ => None,
    }
}

/// What the relay JSON file says of the auth token: `None` when a key is
/// followed by a broken value (the search stops there), `Some(None)` when no
/// key yields a token, else the token of the first key that yields one.
pub open spec fn json_token(content: Seq<char>) -> Option<Option<Seq<u8>>> {
    let f1 = json_field(content, token_hex_key());
    let f2 = json_field(content, token_key());
    if f1 is Broken {
        None
    } else if field_token(f1) is Some {
        Some(field_token(f1))
    } else if f2 is Broken {
        None
    } else {
        Some(field_token(f2))
    }
}

/// Every value `json_token` decodes as hexadecimal can be decoded without cutting a character.
pub open spec fn json_token_safe(content: Seq<char>) -> bool {
    let f1 = json_field(content, token_hex_key());
    let f2 = json_field(content, token_key());
    &&& f1 matches JsonField::Value(v) ==> hex_decode_safe(trim(v))
    &&& (f1 is Missing || (f1 is Value && field_token(f1) is None)) ==> (f2 matches JsonField::Value(w)
        ==> hex_decode_safe(trim(w)))
}

/// The token a field yields, the field's text being safe to decode.
fn token_of_field(f: &FieldLookup) -> (r: Option<Vec<u8>>)
    requires
        field_view(*f) matches JsonField::Value(v) ==> hex_decode_safe(trim(v)),
    ensures
        match r {
            Some(t) => field_token(field_view(*f)) == Some(t@),
            None => field_token(field_view(*f)) is None,
        },
{
    match f {
        FieldLookup::Value(v) => parse_saved_token_value(v.as_str()),
        _ => None,
    }
}

/// Reads the auth token out of the relay JSON file, by `json_token`.
pub fn token_from_relay_json(content: &str) -> (r: Option<Option<Vec<u8>>>)
    requires
        json_token_safe(content@),
    ensures
        match r {
            None => json_token(content@) is None,
            Some(None) => json_token(content@) == Some(None::<Seq<u8>>),
            Some(Some(t)) => json_token(content@) == Some(Some(t@)),
        },
{
    let f1 = lookup_field(content, "\"secret_token_hex\":");
    if let FieldLookup::Broken = f1 {
        return None;
    }
    match token_of_field(&f1) {
        Some(t) => return Some(Some(t)),
        None => {},
    }
    let f2 = lookup_field(content, "\"secret_token\":");
    if let FieldLookup::Broken = f2 {
        return None;
    }
    Some(token_of_field(&f2))
}

/// Whether every value `token_from_relay_json` would decode as hexadecimal
/// can be decoded without cutting a character.
pub fn relay_json_is_safe(content: &str) -> (r: bool)
    ensures
        r == json_token_safe(content@),
{
    let f1 = lookup_field(content, "\"secret_token_hex\":");
    match &f1 {
        FieldLookup::Value(v) => {
            proof {
                crate::text::lemma_trim_idempotent(v@);
            }
            if !hex_text_is_safe(v.as_str()) {
                return false;
            }
        },
        _ => {},
    }
    let needs_second = match &f1 {
        FieldLookup::Missing => true,
        FieldLookup::Value(_) => token_of_field(&f1).is_none(),
        FieldLookup::Broken => false,
    };
    if !needs_second {
        return true;
    }
    match lookup_field(content, "\"secret_token\":") {
        FieldLookup::Value(w) => {
            proof {
                crate::text::lemma_trim_idempotent(w@);
            }
            hex_text_is_safe(w.as_str())
        },
        _ => true,
    }
}

/// What a token file of these bytes holds: 32 bytes that are not all zero
/// are the token itself; anything else is read as text by `saved_token_of`.
pub open spec fn file_token(raw: Seq<u8>) -> Option<Seq<u8>> {
    if raw.len() == 32 && exists|i: int| 0 <= i < 32 && raw[i] != 0 {
        Some(raw)
    } else {
        saved_token_of(lossy_text(raw))
    }
}

/// The file's text is read only when decoding it as hexadecimal stays on
/// character boundaries for every pair the decoder reaches.
pub open spec fn file_token_safe(raw: Seq<u8>) -> bool {
    (raw.len() == 32 && exists|i: int| 0 <= i < 32 && raw[i] != 0) || hex_decode_safe(trim(lossy_text(raw)))
}

/// Whether the 32 bytes are not all zero.
fn any_nonzero(raw: &[u8]) -> (r: bool)
    ensures
        r == exists|i: int| 0 <= i < raw@.len() && raw@[i] != 0,
{
    let mut i: usize = 0;
    while i < raw.len()
        invariant
            i <= raw@.len(),
            forall|j: int| 0 <= j < i ==> raw@[j] == 0,
        decreases raw@.len() - i,
    {
        if raw[i] != 0 {
            return true;
        }
        i = i + 1;
    }
    false
}

/// Reads the auth token out of a token file, by `file_token`.
pub fn token_from_token_file(raw: &[u8]) -> (r: Option<Vec<u8>>)
    requires
        file_token_safe(raw@),
    ensures
        match r {
            Some(t) => file_token(raw@) == Some(t@),
            None => file_token(raw@) is None,
        },
{
    if raw.len() == 32 && any_nonzero(raw) {
        let mut copy: Vec<u8> = Vec::new();
        crate::protocol::wire::put_slice(&mut copy, raw);
        return Some(copy);
    }
    let text = string_from_utf8_lossy(raw);
    parse_saved_token_value(text.as_str())
}

/// What the saved files say of the auth token: the relay JSON file first (a
/// broken value there means no token), then the token file.
pub open spec fn saved_auth_token(json: Option<Seq<char>>, token_file: Option<Seq<u8>>) -> Option<Seq<u8>> {
    let from_json = match json {
        Some(c) => json_token(c),
        None => Some(None),
    };
    match from_json {
        None => None,
        Some(Some(t)) => Some(t),
        Some(None) => match token_file {
            Some(raw) => file_token(raw),
            None => None,
        },
    }
}

/// Every text that `saved_auth_token` decodes as hexadecimal can be decoded without cutting a character.
pub open spec fn saved_auth_token_safe(json: Option<Seq<char>>, token_file: Option<Seq<u8>>) -> bool {
    let from_json = match json {
        Some(c) => json_token(c),
        None => Some(None),
    };
    &&& json matches Some(c) ==> json_token_safe(c)
    &&& from_json == Some(None::<Seq<u8>>) ==> (token_file matches Some(raw) ==> file_token_safe(raw))
}

/// The opt view of a byte vector.
pub open spec fn opt_bytes(v: Option<Vec<u8>>) -> Option<Seq<u8>> {
    match v {
        Some(b) => Some(b@),
        None => None,
    }
}

/// The auth token already saved, read from the contents of the relay JSON
/// file and of the token file (each `None` when it could not be read), by
/// `saved_auth_token`. `None` when decoding a text as hexadecimal would cut
/// a pair it reaches across a character boundary.
pub fn existing_auth_token(json: Option<&str>, token_file: Option<&[u8]>) -> (r: Option<Option<Vec<u8>>>)
    ensures
        r is None <==> !saved_auth_token_safe(
            match json {
                Some(c) => Some(c@),
                None => None,
            },
            match token_file {
                Some(b) => Some(b@),
                None => None,
            },
        ),
        r matches Some(t) ==> opt_bytes(t) == saved_auth_token(
            match json {
                Some(c) => Some(c@),
                None => None,
            },
            match token_file {
                Some(b) => Some(b@),
                None => None,
            },
        ),
{
    match json {
        Some(content) => {
            if !relay_json_is_safe(content) {
                return None;
            }
            match token_from_relay_json(content) {
                None => return Some(None),
                Some(Some(t)) => return Some(Some(t)),
                Some(None) => {},
            }
        },
        None => {},
    }
    match token_file {
        Some(raw) => {
            let safe = if raw.len() == 32 && any_nonzero(raw) {
                true
            } else {
                let text = string_from_utf8_lossy(raw);
                proof {
                    crate::text::lemma_trim_idempotent(text@);
                }
                hex_text_is_safe(text.as_str())
            };
            if !safe {
                return None;
            }
            Some(token_from_token_file(raw))
        },
        None => Some(None),
    }
}

/// The characters of Base64 text: its alphabet and its padding.
pub open spec fn is_base64_char(c: char) -> bool {
    ('A' <= c && c <= 'Z') || ('a' <= c && c <= 'z') || ('0' <= c && c <= '9') || c == '+' || c == '/' || c == '='
}

/// The lower-case hexadecimal text of a token, as the relay writes it.
pub open spec fn token_hex_text(token: Seq<u8>) -> Seq<char> {
    ascii_chars(crate::transport::obfuscation::hex_bytes(token))
}

/// The hexadecimal text of a token holds only the digits `0`-`9` and `a`-`f`.
pub(crate) proof fn lemma_token_hex_digits(token: Seq<u8>)
    ensures
        token_hex_text(token).len() == 2 * token.len(),
        forall|i: int| 0 <= i < token_hex_text(token).len() ==> ('0' <= #[trigger] token_hex_text(token)[i] <= '9')
            || ('a' <= token_hex_text(token)[i] <= 'f'),
{
    let h = crate::transport::obfuscation::hex_bytes(token);
    assert forall|i: int| 0 <= i < h.len() implies (48 <= #[trigger] h[i] <= 57 || 97 <= h[i] <= 102) by {
        let v: u8 = if i % 2 == 0 { token[i / 2] / 16 } else { token[i / 2] % 16 };
        assert(v < 16);
    }
}

/// Where the token's key stands in the relay JSON text: both the key with
/// its colon and the bare quoted key occur first right after the public key
/// and the line break, and what follows the key and its colon is a space,
/// the quoted value and the closing lines.
pub(crate) proof fn lemma_relay_json_key_position(b64: Seq<char>, h: Seq<char>)
    requires
        forall|i: int| 0 <= i < b64.len() ==> is_base64_char(#[trigger] b64[i]),
        forall|i: int| 0 <= i < h.len() ==> ('0' <= #[trigger] h[i] <= '9') || ('a' <= h[i] <= 'f'),
    ensures
        relay_json_text(b64, h).len() == 56 + b64.len() + h.len(),
        find_from(relay_json_text(b64, h), token_hex_key(), 0) == Some(31 + b64.len() as int),
        find_from(relay_json_text(b64, h), "\"secret_token_hex\""@, 0) == Some(31 + b64.len() as int),
        relay_json_text(b64, h).subrange(31 + b64.len() + 18 as int, relay_json_text(b64, h).len() as int) == ": \""@ + h
            + "\"\n}\n"@,
{
    reveal_strlit("{\n  \"public_key_base64\": \"");
    reveal_strlit("\",\n  \"secret_token_hex\": \"");
    reveal_strlit("\"\n}\n");
    reveal_strlit("\"secret_token_hex\":");
    reveal_strlit("\"secret_token_hex\"");
    reveal_strlit(": \"");
    let p1 = "{\n  \"public_key_base64\": \""@;
    let p2 = "\",\n  \"secret_token_hex\": \""@;
    let p3 = "\"\n}\n"@;
    let key = token_hex_key();
    let marker = "\"secret_token_hex\""@;
    let c = relay_json_text(b64, h);
    assert(c == p1 + b64 + p2 + h + p3);
    let base2: int = 26 + b64.len() as int;
    let p0: int = base2 + 5;
    assert(p1.len() == 26 && p2.len() == 26 && p3.len() == 4);
    assert(c.len() == 56 + b64.len() + h.len());
    assert forall|k: int| 0 <= k < 26 implies #[trigger] c[k] == p1[k] by {}
    assert forall|k: int| 0 <= k < b64.len() implies #[trigger] c[26 + k] == b64[k] by {}
    assert forall|k: int| 0 <= k < 26 implies #[trigger] c[base2 + k] == p2[k] by {}
    assert(c.subrange(p0, p0 + 19) =~= key);
    assert(c.subrange(p0, p0 + 18) =~= marker);
    // Before the key, an underscore stands seven places after a position only
    // inside "public_key_base64".
    assert forall|j: int| 0 <= j < p0 implies (#[trigger] c[j + 7] != '_' || j == 4 || j == 8) by {
        if j + 7 < 26 {
            assert(c[j + 7] == p1[j + 7]);
        } else if j + 7 < base2 {
            assert(c[j + 7] == b64[j + 7 - 26]);
            assert(is_base64_char(b64[j + 7 - 26]));
        } else {
            assert(c[j + 7] == p2[j + 7 - base2]);
        }
    }
    assert forall|j: int| 0 <= j < p0 implies #[trigger] c.subrange(j, j + 19) != key by {
        if c[j + 7] != '_' {
            assert(c.subrange(j, j + 19)[7] == c[j + 7]);
        } else if j == 4 {
            assert(c.subrange(j, j + 19)[1] == c[5]);
        } else {
            assert(c.subrange(j, j + 19)[0] == c[8]);
        }
    }
    assert forall|j: int| 0 <= j < p0 implies #[trigger] c.subrange(j, j + 18) != marker by {
        if c[j + 7] != '_' {
            assert(c.subrange(j, j + 18)[7] == c[j + 7]);
        } else if j == 4 {
            assert(c.subrange(j, j + 18)[1] == c[5]);
        } else {
            assert(c.subrange(j, j + 18)[0] == c[8]);
        }
    }
    crate::text::lemma_find_first(c, key, 0, p0);
    crate::text::lemma_find_first(c, marker, 0, p0);
    assert(c.subrange(p0 + 18, c.len() as int) =~= ": \""@ + h + p3);
}

/// A line holding a token's hexadecimal text reads back, trimmed, as that text.
pub(crate) proof fn lemma_hex_line_trims(h: Seq<char>)
    requires
        h.len() > 0,
        forall|i: int| 0 <= i < h.len() ==> ('0' <= #[trigger] h[i] <= '9') || ('a' <= h[i] <= 'f'),
    ensures
        trim(h) == h,
        trim(h + "\n"@) == h,
{
    reveal_strlit("\n");
    crate::text::lemma_trim_noop(h);
    let l = h + "\n"@;
    assert(!crate::text::is_white_space(l[0]));
    assert(crate::text::trim_start(l) == l);
    assert(crate::text::is_white_space(l.last()));
    assert(l.drop_last() =~= h);
    assert(crate::text::trim_end(h) == h);
    assert(crate::text::trim_end(l) == crate::text::trim_end(l.drop_last()));
}

/// The token the relay records is the token it reads back. From the relay
/// JSON file it writes (with a Base64 public key), the token comes back
/// whatever the token file holds; from the token file alone (the token's
/// hexadecimal text on a line) it comes back too. Neither read can fail on
/// a character boundary.
#[verifier::spinoff_prover]
#[verifier::rlimit(40)]
pub proof fn lemma_saved_token_round_trip(b64: Seq<char>, token: Seq<u8>, token_file: Option<Seq<u8>>)
    requires
        token.len() > 0,
        forall|i: int| 0 <= i < b64.len() ==> is_base64_char(#[trigger] b64[i]),
    ensures
        saved_auth_token_safe(Some(relay_json_text(b64, token_hex_text(token))), token_file),
        saved_auth_token(Some(relay_json_text(b64, token_hex_text(token))), token_file) == Some(token),
        saved_auth_token_safe(None, Some(encode_utf8(token_hex_text(token) + "\n"@))),
        saved_auth_token(None, Some(encode_utf8(token_hex_text(token) + "\n"@))) == Some(token),
{
    reveal_strlit("\"");
    reveal_strlit(": \"");
    reveal_strlit("\"\n}\n");
    reveal_strlit("\n");
    let h = token_hex_text(token);
    lemma_token_hex_digits(token);
    lemma_relay_json_key_position(b64, h);
    crate::transport::obfuscation::lemma_hex_roundtrip(token);
    lemma_hex_line_trims(h);
    let c = relay_json_text(b64, h);
    let p0: int = 31 + b64.len() as int;
    let key = token_hex_key();
    reveal_strlit("\"secret_token_hex\":");
    assert(key.len() == 19);
    // The value after the key: a space, then the quoted text.
    let rest = c.subrange(p0 + 19, c.len() as int);
    assert(rest =~= c.subrange(p0 + 18, c.len() as int).subrange(1, c.len() - p0 - 18));
    assert(rest =~= " \""@ + h + "\"\n}\n"@) by {
        reveal_strlit(" \"");
        assert(c.subrange(p0 + 18, c.len() as int) == ": \""@ + h + "\"\n}\n"@);
    }
    reveal_strlit(" \"");
    assert(rest.subrange(1, 2) =~= "\""@);
    assert(rest.subrange(0, 1) != "\""@) by {
        assert(rest.subrange(0, 1)[0] == ' ');
    }
    crate::text::lemma_find_first(rest, "\""@, 0, 1);
    let tail = rest.subrange(2, rest.len() as int);
    assert(tail =~= h + "\"\n}\n"@);
    assert(tail.subrange(h.len() as int, h.len() + 1 as int) =~= "\""@);
    assert forall|j: int| 0 <= j < h.len() implies #[trigger] tail.subrange(j, j + 1) != "\""@ by {
        assert(tail.subrange(j, j + 1)[0] == h[j]);
    }
    crate::text::lemma_find_first(tail, "\""@, 0, h.len() as int);
    assert(tail.subrange(0, h.len() as int) =~= h);
    assert(json_field(c, key) == JsonField::Value(h));
    assert(saved_token_of(h) == Some(token));
    assert(json_token(c) == Some(Some(token)));
    // The token file.
    let raw = encode_utf8(h + "\n"@);
    assert(vstd::utf8::is_ascii_chars(h + "\n"@));
    vstd::utf8::is_ascii_chars_encode_utf8(h + "\n"@);
    vstd::utf8::encode_utf8_valid_utf8(h + "\n"@);
    vstd::utf8::encode_utf8_decode_utf8(h + "\n"@);
    assert(raw.len() == 2 * token.len() + 1);
    assert(crate::text::lossy_text(raw) == h + "\n"@);
    assert(saved_token_of(h + "\n"@) == Some(token));
    assert(file_token(raw) == Some(token));
}

/// The bytes of Base64 text: the alphabet's and the padding's.
pub open spec fn is_base64_byte(b: u8) -> bool {
    (65 <= b && b <= 90) || (97 <= b && b <= 122) || (48 <= b && b <= 57) || b == 43 || b == 47 || b == 61
}

proof fn lemma_b64_chunks_bytes(d: Seq<u8>, k: int)
    requires
        0 <= k <= (d.len() + 2) / 3,
    ensures
        forall|i: int| 0 <= i < b64_chunks(d, k).len() ==> is_base64_byte(#[trigger] b64_chunks(d, k)[i]),
    decreases k,
{
    if k > 0 {
        lemma_b64_chunks_bytes(d, k - 1);
        let prev = b64_chunks(d, k - 1);
        let c = b64_chunk(chunk_of(d, k - 1));
        assert(chunk_of(d, k - 1).len() > 0);
        assert(forall|i: int| 0 <= i < c.len() ==> is_base64_byte(#[trigger] c[i]));
        assert(b64_chunks(d, k) == prev + c);
    }
}

/// Base64 text, as `base64_encode` makes it, holds only the Base64 alphabet
/// and its padding.
pub proof fn lemma_base64_text_chars(d: Seq<u8>)
    ensures
        forall|i: int| 0 <= i < ascii_chars(b64_encode_spec(d)).len() ==> is_base64_char(
            #[trigger] ascii_chars(b64_encode_spec(d))[i],
        ),
{
    lemma_b64_chunks_bytes(d, ((d.len() + 2) / 3) as int);
    let t = b64_encode_spec(d);
    assert forall|i: int| 0 <= i < ascii_chars(t).len() implies is_base64_char(#[trigger] ascii_chars(t)[i]) by {
        assert(is_base64_byte(t[i]));
        assert(ascii_chars(t)[i] == t[i] as char);
    }
}

} // verus!
