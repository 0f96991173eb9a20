//! Laws of the pseudo-TLS camouflage: what the parser makes of a hello that
//! the builder made, and that the validator accepts it under the same secret.
use vstd::prelude::*;
use vstd::utf8::{decode_utf8, encode_utf8};

use crate::protocol::wire::{be16_at, be16_bytes, lemma_be16_roundtrip};
use crate::text::{ascii_lower, lemma_ascii_lower_idempotent};
use crate::transport::obfuscation::{
    be24_at, builder_suites, cover_message, handshake_body_bytes, hello_body_bytes, record_bytes, hello_record, hello_spec, hmac_sha256,
    lists_tls13, offers_tls13_spec, record_total_len, scan_extensions, sni_extension, sni_of, status_view,
    tail_extensions, u16_list, u16_list_bytes, ClientHelloStatus, HelloSpec, ParsedClientHello,
    TokenValidator,
};

verus! {

/// `b` is found in `a` at offset `off`.
spec fn occurs_at(a: Seq<u8>, b: Seq<u8>, off: int) -> bool {
    0 <= off && off + b.len() <= a.len() && a.subrange(off, off + b.len()) == b
}

proof fn lemma_occurs_be16(a: Seq<u8>, b: Seq<u8>, off: int, j: int)
    requires
        occurs_at(a, b, off),
        0 <= j,
        j + 2 <= b.len(),
    ensures
        be16_at(a, off + j) == be16_at(b, j),
        a[off + j] == b[j],
{
    assert(a[off + j] == a.subrange(off, off + b.len())[j]);
    assert(a[off + j + 1] == a.subrange(off, off + b.len())[j + 1]);
}

proof fn lemma_occurs_byte(a: Seq<u8>, b: Seq<u8>, off: int, j: int)
    requires
        occurs_at(a, b, off),
        0 <= j < b.len(),
    ensures
        a[off + j] == b[j],
{
    assert(a[off + j] == a.subrange(off, off + b.len())[j]);
}

proof fn lemma_occurs_trans(a: Seq<u8>, b: Seq<u8>, c: Seq<u8>, off1: int, off2: int)
    requires
        occurs_at(a, b, off1),
        occurs_at(b, c, off2),
    ensures
        occurs_at(a, c, off1 + off2),
{
    assert(a.subrange(off1 + off2, off1 + off2 + c.len()) =~= c) by {
        assert forall|k: int| 0 <= k < c.len() implies a.subrange(off1 + off2, off1 + off2 + c.len())[k] == c[k] by {
            assert(c[k] == b.subrange(off2, off2 + c.len())[k]);
            assert(b[off2 + k] == a.subrange(off1, off1 + b.len())[off2 + k]);
        }
    }
}

/// The fields of the fixed tail of extensions.
#[verifier::spinoff_prover]
#[verifier::rlimit(40)]
proof fn lemma_tail_layout(ks: Seq<u8>)
    requires
        ks.len() == 32,
    ensures
        tail_extensions(ks).len() == 73,
        be16_at(tail_extensions(ks), 0) == 0x002b,
        be16_at(tail_extensions(ks), 2) == 5,
        tail_extensions(ks)[4] == 4,
        be16_at(tail_extensions(ks), 5) == 0x0304,
        be16_at(tail_extensions(ks), 9) == 0x000a,
        be16_at(tail_extensions(ks), 11) == 6,
        be16_at(tail_extensions(ks), 19) == 0x000d,
        be16_at(tail_extensions(ks), 21) == 8,
        be16_at(tail_extensions(ks), 31) == 0x0033,
        be16_at(tail_extensions(ks), 33) == 38,
{
    let t = tail_extensions(ks);
    assert(t.subrange(0, 2) =~= be16_bytes(0x002b));
    lemma_be16_roundtrip(0x002b, t, 0);
    assert(t.subrange(2, 4) =~= be16_bytes(5));
    lemma_be16_roundtrip(5, t, 2);
    assert(t.subrange(5, 7) =~= be16_bytes(0x0304));
    lemma_be16_roundtrip(0x0304, t, 5);
    assert(t.subrange(9, 11) =~= be16_bytes(0x000a));
    lemma_be16_roundtrip(0x000a, t, 9);
    assert(t.subrange(11, 13) =~= be16_bytes(6));
    lemma_be16_roundtrip(6, t, 11);
    assert(t.subrange(19, 21) =~= be16_bytes(0x000d));
    lemma_be16_roundtrip(0x000d, t, 19);
    assert(t.subrange(21, 23) =~= be16_bytes(8));
    lemma_be16_roundtrip(8, t, 21);
    assert(t.subrange(31, 33) =~= be16_bytes(0x0033));
    lemma_be16_roundtrip(0x0033, t, 31);
    assert(t.subrange(33, 35) =~= be16_bytes(38));
    lemma_be16_roundtrip(38, t, 33);
}

/// The fields of the server_name extension.
proof fn lemma_sni_layout(sni: Seq<u8>)
    requires
        sni.len() <= 0xff00,
    ensures
        sni_extension(sni).len() == 9 + sni.len(),
        be16_at(sni_extension(sni), 0) == 0,
        be16_at(sni_extension(sni), 2) == 5 + sni.len(),
        sni_extension(sni)[6] == 0,
        be16_at(sni_extension(sni), 7) == sni.len(),
        occurs_at(sni_extension(sni), sni, 9),
{
    let e = sni_extension(sni);
    let n = sni.len() as int;
    assert(e.subrange(0, 2) =~= be16_bytes(0));
    lemma_be16_roundtrip(0, e, 0);
    assert(e.subrange(2, 4) =~= be16_bytes((5 + n) as u16));
    lemma_be16_roundtrip((5 + n) as u16, e, 2);
    assert(e.subrange(7, 9) =~= be16_bytes(n as u16));
    lemma_be16_roundtrip(n as u16, e, 7);
    assert(e.subrange(9, 9 + n) =~= sni);
}

/// The fields of a handshake body around an extension block.
proof fn lemma_body_layout(random: Seq<u8>, tag: Seq<u8>, ext: Seq<u8>)
    requires
        random.len() == 32,
        tag.len() == 32,
        ext.len() <= 0xffff,
    ensures
        handshake_body_bytes(random, tag, ext).len() == 79 + ext.len(),
        be16_at(handshake_body_bytes(random, tag, ext), 0) == 0x0303,
        occurs_at(handshake_body_bytes(random, tag, ext), random, 2),
        handshake_body_bytes(random, tag, ext)[34] == 32,
        occurs_at(handshake_body_bytes(random, tag, ext), tag, 35),
        be16_at(handshake_body_bytes(random, tag, ext), 67) == 6,
        be16_at(handshake_body_bytes(random, tag, ext), 69) == 0x1301,
        be16_at(handshake_body_bytes(random, tag, ext), 71) == 0x1302,
        be16_at(handshake_body_bytes(random, tag, ext), 73) == 0x1303,
        handshake_body_bytes(random, tag, ext)[75] == 1,
        handshake_body_bytes(random, tag, ext)[76] == 0,
        be16_at(handshake_body_bytes(random, tag, ext), 77) == ext.len(),
        occurs_at(handshake_body_bytes(random, tag, ext), ext, 79),
{
    let h = handshake_body_bytes(random, tag, ext);
    let sb = u16_list_bytes(builder_suites());
    reveal_with_fuel(u16_list_bytes, 4);
    assert(builder_suites().drop_last().drop_last().drop_last() =~= Seq::<u16>::empty());
    assert(builder_suites().drop_last().drop_last() =~= seq![0x1301u16]);
    assert(builder_suites().drop_last() =~= seq![0x1301u16, 0x1302u16]);
    assert(sb =~= be16_bytes(0x1301) + be16_bytes(0x1302) + be16_bytes(0x1303));
    assert(h.subrange(0, 2) =~= be16_bytes(0x0303));
    lemma_be16_roundtrip(0x0303, h, 0);
    assert(h.subrange(2, 34) =~= random);
    assert(h.subrange(35, 67) =~= tag);
    assert(h.subrange(67, 69) =~= be16_bytes(6));
    lemma_be16_roundtrip(6, h, 67);
    assert(h.subrange(69, 71) =~= be16_bytes(0x1301));
    lemma_be16_roundtrip(0x1301, h, 69);
    assert(h.subrange(71, 73) =~= be16_bytes(0x1302));
    lemma_be16_roundtrip(0x1302, h, 71);
    assert(h.subrange(73, 75) =~= be16_bytes(0x1303));
    lemma_be16_roundtrip(0x1303, h, 73);
    assert(h.subrange(77, 79) =~= be16_bytes(ext.len() as u16));
    lemma_be16_roundtrip(ext.len() as u16, h, 77);
    assert(h.subrange(79, 79 + ext.len() as int) =~= ext);
}

/// The record header around a handshake body.
proof fn lemma_record_layout(hs: Seq<u8>)
    requires
        hs.len() <= 4087,
    ensures
        record_bytes(hs).len() == 9 + hs.len(),
        record_bytes(hs)[0] == 0x16,
        record_total_len(record_bytes(hs)) == 9 + hs.len(),
        record_bytes(hs)[5] == 1,
        be24_at(record_bytes(hs), 6) == hs.len(),
        occurs_at(record_bytes(hs), hs, 9),
{
    let r = record_bytes(hs);
    let m = hs.len() as int;
    assert(r.subrange(3, 5) =~= be16_bytes((4 + m) as u16));
    lemma_be16_roundtrip((4 + m) as u16, r, 3);
    assert(r.subrange(9, 9 + m) =~= hs);
    assert(r[6] == ((m / 65536) % 256) as u8);
    assert(r[7] == ((m / 256) % 256) as u8);
    assert(r[8] == (m % 256) as u8);
}

/// The fields of a camouflaged hello, at their offsets in the record.
spec fn hello_facts(rec: Seq<u8>, n: int, random: Seq<u8>, tag: Seq<u8>, name: Seq<u8>) -> bool {
    let t0 = 97 + n;
    &&& 0 <= n <= 3926
    &&& name.len() == n
    &&& rec.len() == 170 + n
    &&& rec[0] == 0x16
    &&& record_total_len(rec) == 170 + n
    &&& rec[5] == 1
    &&& be24_at(rec, 6) == 161 + n
    &&& be16_at(rec, 9) == 0x0303
    &&& occurs_at(rec, random, 11)
    &&& rec[43] == 32
    &&& occurs_at(rec, tag, 44)
    &&& be16_at(rec, 76) == 6
    &&& be16_at(rec, 78) == 0x1301
    &&& be16_at(rec, 80) == 0x1302
    &&& be16_at(rec, 82) == 0x1303
    &&& rec[84] == 1
    &&& rec[85] == 0
    &&& be16_at(rec, 86) == 82 + n
    &&& be16_at(rec, 88) == 0
    &&& be16_at(rec, 90) == 5 + n
    &&& rec[94] == 0
    &&& be16_at(rec, 95) == n
    &&& occurs_at(rec, name, 97)
    &&& be16_at(rec, t0) == 0x002b
    &&& be16_at(rec, t0 + 2) == 5
    &&& rec[t0 + 4] == 4
    &&& be16_at(rec, t0 + 5) == 0x0304
    &&& be16_at(rec, t0 + 9) == 0x000a
    &&& be16_at(rec, t0 + 11) == 6
    &&& be16_at(rec, t0 + 19) == 0x000d
    &&& be16_at(rec, t0 + 21) == 8
    &&& be16_at(rec, t0 + 31) == 0x0033
    &&& be16_at(rec, t0 + 33) == 38
}

/// Every field of a camouflaged hello sits at its offset.
proof fn lemma_hello_facts(random: Seq<u8>, tag: Seq<u8>, key_share: Seq<u8>, sni: Seq<u8>)
    requires
        random.len() == 32,
        tag.len() == 32,
        key_share.len() == 32,
        sni.len() <= 3926,
    ensures
        hello_facts(hello_record(random, tag, key_share, sni), sni.len() as int, random, tag, sni),
{
    let n = sni.len() as int;
    let se = sni_extension(sni);
    let te = tail_extensions(key_share);
    let ext = se + te;
    let h = handshake_body_bytes(random, tag, ext);
    let rec = record_bytes(h);
    lemma_sni_layout(sni);
    lemma_tail_layout(key_share);
    lemma_body_layout(random, tag, ext);
    lemma_record_layout(h);
    lemma_occurs_be16(rec, h, 9, 0);
    lemma_occurs_byte(rec, h, 9, 34);
    lemma_occurs_be16(rec, h, 9, 67);
    lemma_occurs_be16(rec, h, 9, 69);
    lemma_occurs_be16(rec, h, 9, 71);
    lemma_occurs_be16(rec, h, 9, 73);
    lemma_occurs_byte(rec, h, 9, 75);
    lemma_occurs_byte(rec, h, 9, 76);
    lemma_occurs_be16(rec, h, 9, 77);
    lemma_occurs_trans(rec, h, random, 9, 2);
    lemma_occurs_trans(rec, h, tag, 9, 35);
    lemma_occurs_trans(rec, h, ext, 9, 79);
    assert(occurs_at(ext, se, 0)) by {
        assert(ext.subrange(0, 9 + n) =~= se);
    }
    assert(occurs_at(ext, te, 9 + n)) by {
        assert(ext.subrange(9 + n, 82 + n) =~= te);
    }
    lemma_occurs_trans(rec, ext, se, 88, 0);
    lemma_occurs_trans(rec, ext, te, 88, 9 + n);
    lemma_occurs_trans(rec, se, sni, 88, 9);
    let t0 = 97 + n;
    lemma_occurs_be16(rec, se, 88, 0);
    lemma_occurs_be16(rec, se, 88, 2);
    lemma_occurs_byte(rec, se, 88, 6);
    lemma_occurs_be16(rec, se, 88, 7);
    lemma_occurs_be16(rec, te, t0, 0);
    lemma_occurs_be16(rec, te, t0, 2);
    lemma_occurs_byte(rec, te, t0, 4);
    lemma_occurs_be16(rec, te, t0, 5);
    lemma_occurs_be16(rec, te, t0, 9);
    lemma_occurs_be16(rec, te, t0, 11);
    lemma_occurs_be16(rec, te, t0, 19);
    lemma_occurs_be16(rec, te, t0, 21);
    lemma_occurs_be16(rec, te, t0, 31);
    lemma_occurs_be16(rec, te, t0, 33);
    assert(hello_record(random, tag, key_share, sni) == rec);
}

/// The extension block of a camouflaged hello yields its server name and TLS 1.3.
proof fn lemma_hello_extensions(rec: Seq<u8>, n: int, random: Seq<u8>, tag: Seq<u8>, host: Seq<char>)
    requires
        hello_facts(rec, n, random, tag, encode_utf8(host)),
    ensures
        scan_extensions(rec, 88, 170 + n, None, false) == Some((Some(ascii_lower(host)), true)),
{
    let name = encode_utf8(host);
    let t0 = 97 + n;
    let end = 170 + n;
    vstd::utf8::encode_utf8_valid_utf8(host);
    vstd::utf8::encode_utf8_decode_utf8(host);
    assert(rec.subrange(97, 97 + n) == name);
    assert(sni_of(rec, 92, 5 + n) == Some(ascii_lower(host)));
    assert(be16_at(rec, (t0 + 5) + 2 * 0) == 0x0304);
    assert(lists_tls13(rec, t0 + 5, 2));
    assert(offers_tls13_spec(rec, t0 + 4, 5));
    let found = Some((Some(ascii_lower(host)), true));
    assert(scan_extensions(rec, t0 + 73, end, Some(ascii_lower(host)), true) == found);
    assert(scan_extensions(rec, t0 + 31, end, Some(ascii_lower(host)), true) == found);
    assert(scan_extensions(rec, t0 + 19, end, Some(ascii_lower(host)), true) == found);
    assert(scan_extensions(rec, t0 + 9, end, Some(ascii_lower(host)), true) == found);
    assert(scan_extensions(rec, t0, end, Some(ascii_lower(host)), false) == found);
}

/// A record with the fields of a camouflaged hello parses to them.
proof fn lemma_hello_facts_parse(rec: Seq<u8>, n: int, random: Seq<u8>, tag: Seq<u8>, host: Seq<char>)
    requires
        hello_facts(rec, n, random, tag, encode_utf8(host)),
        random.len() == 32,
        tag.len() == 32,
    ensures
        hello_spec(rec) == (HelloSpec::Complete {
            legacy_version: 0x0303,
            random,
            session_id: tag,
            cipher_suites: builder_suites(),
            sni: Some(ascii_lower(host)),
            is_tls13: true,
        }),
{
    lemma_hello_extensions(rec, n, random, tag, host);
    assert(rec.subrange(11, 43) == random);
    assert(rec.subrange(44, 76) == tag);
    assert(u16_list(rec, 78, 3) =~= builder_suites());
}

/// A camouflaged hello whose server name fits in a 4096-byte record parses
/// completely: legacy version 0x0303, the random, the proof as session id, the
/// three cipher suites, the lower-cased server name, and TLS 1.3 offered.
pub proof fn lemma_camouflaged_hello_parses(random: Seq<u8>, tag: Seq<u8>, key_share: Seq<u8>, host: Seq<char>)
    requires
        random.len() == 32,
        tag.len() == 32,
        key_share.len() == 32,
        encode_utf8(host).len() <= 3926,
    ensures
        hello_spec(hello_record(random, tag, key_share, encode_utf8(host))) == (HelloSpec::Complete {
            legacy_version: 0x0303,
            random,
            session_id: tag,
            cipher_suites: builder_suites(),
            sni: Some(ascii_lower(host)),
            is_tls13: true,
        }),
{
    let sni = encode_utf8(host);
    lemma_hello_facts(random, tag, key_share, sni);
    lemma_hello_facts_parse(hello_record(random, tag, key_share, sni), sni.len() as int, random, tag, host);
}

/// A hello built with a secret is accepted by a validator holding the same
/// non-empty secret (and expecting that server name, if it expects one): the
/// parser finds the server name and the proof that the builder put there.
pub proof fn lemma_cover_proof_accepted(
    secret: Seq<u8>,
    host: Seq<char>,
    random: Seq<u8>,
    key_share: Seq<u8>,
    v: TokenValidator,
    parsed: ParsedClientHello,
)
    requires
        random.len() == 32,
        key_share.len() == 32,
        encode_utf8(ascii_lower(host)).len() <= 3926,
        hmac_sha256(secret, cover_message(random, ascii_lower(host))).len() == 32,
        secret.len() > 0,
        v.secret_view() == secret,
        v.expected_sni_view() matches Some(e) ==> e == ascii_lower(host),
        status_view(ClientHelloStatus::Complete(parsed)) == hello_spec(
            hello_record(
                random,
                hmac_sha256(secret, cover_message(random, ascii_lower(host))),
                key_share,
                encode_utf8(ascii_lower(host)),
            ),
        ),
    ensures
        v.accepts(parsed),
{
    let sni = ascii_lower(host);
    let tag = hmac_sha256(secret, cover_message(random, sni));
    lemma_camouflaged_hello_parses(random, tag, key_share, sni);
    lemma_ascii_lower_idempotent(host);
}

} // verus!
