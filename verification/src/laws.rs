//! Properties of the library that relate several of its functions.

use vstd::prelude::*;
use vstd::utf8::{encode_utf8, decode_utf8, valid_utf8, encode_utf8_decode_utf8, encode_utf8_valid_utf8};

use crate::bytes::{fit, be_bytes, be_value, lemma_be_bytes_len, lemma_be_value_of_bytes, lemma_pow256_facts};
use crate::signature::rpcn_id;
use crate::ticket::{
    TicketModel, item_bytes, text_field, spec_user_items, spec_user_blob, spec_signature_blob,
    spec_to_bytes, lemma_item_len, lemma_user_blob_len, spec_parse, spec_from_bytes,
    spec_check_signature, spec_version, spec_panics, spec_signature_bytes, spec_timestamps,
    spec_layout, spec_model, be64_at, be32_at, text_at, spec_is_emulator,
};
use crate::dates::spec_check_dates;
use crate::ticket::{reverse_range, spec_layout as layout_of, ERR_EMPTY_BUFFER, DEFAULT_REGION, DEFAULT_DOMAIN};
use crate::ticket_data::TicketData;
use crate::version::Version;
use crate::text::{spec_decode_string, trim_nul};

verus! {

/// `k` NUL characters.
pub open spec fn nuls(k: nat) -> Seq<char> {
    Seq::new(k, |i: int| '\0')
}

/// `k` zero bytes.
pub open spec fn zeros(k: nat) -> Seq<u8> {
    Seq::new(k, |i: int| 0u8)
}

/// UTF-8 encoding distributes over concatenation.
pub proof fn lemma_encode_utf8_concat(a: Seq<char>, b: Seq<char>)
    ensures
        encode_utf8(a + b) == encode_utf8(a) + encode_utf8(b),
    decreases a.len(),
{
    if a.len() == 0 {
        assert(a + b =~= b);
        assert(encode_utf8(a) =~= Seq::<u8>::empty());
        assert(encode_utf8(a) + encode_utf8(b) =~= encode_utf8(b));
    } else {
        lemma_encode_utf8_concat(a.drop_first(), b);
        assert((a + b).drop_first() =~= a.drop_first() + b);
        assert((a + b)[0] == a[0]);
        assert(encode_utf8(a + b) =~= encode_utf8(a) + encode_utf8(b));
    }
}

/// NUL characters are encoded as zero bytes.
pub proof fn lemma_encode_nuls(k: nat)
    ensures
        encode_utf8(nuls(k)) == zeros(k),
    decreases k,
{
    if k > 0 {
        lemma_encode_nuls((k - 1) as nat);
        assert(nuls(k).drop_first() =~= nuls((k - 1) as nat));
        assert(0u32 & 0x7F == 0) by (bit_vector);
        assert(nuls(k)[0] as u32 == 0);
        assert(encode_utf8(nuls(k)) =~= seq![0u8] + zeros((k - 1) as nat));
        assert(seq![0u8] + zeros((k - 1) as nat) =~= zeros(k));
    }
}

/// Trailing NULs after a text that does not end in NUL are trimmed away.
pub proof fn lemma_trim_padded(s: Seq<char>, k: nat)
    requires
        s.len() == 0 || s.last() != '\0',
    ensures
        trim_nul(s + nuls(k)) == s,
    decreases k,
{
    if k == 0 {
        assert(s + nuls(0) =~= s);
    } else {
        assert((s + nuls(k)).drop_last() =~= s + nuls((k - 1) as nat));
        lemma_trim_padded(s, (k - 1) as nat);
    }
}

/// Reading back a text field: a text that does not end in NUL, written as
/// UTF-8 zero-padded to `n` bytes, decodes to itself from any prefix of the
/// field that holds all of its bytes.
pub proof fn lemma_decode_padded_text(s: Seq<char>, n: nat, k: nat)
    requires
        encode_utf8(s).len() <= k <= n,
        s.len() == 0 || s.last() != '\0',
    ensures
        spec_decode_string(fit(encode_utf8(s), n).take(k as int)) == s,
{
    let e = encode_utf8(s);
    let pad = (k - e.len()) as nat;
    assert(fit(e, n).take(k as int) =~= e + zeros(pad));
    lemma_encode_nuls(pad);
    lemma_encode_utf8_concat(s, nuls(pad));
    encode_utf8_valid_utf8(s + nuls(pad));
    encode_utf8_decode_utf8(s + nuls(pad));
    lemma_trim_padded(s, pad);
}


/// A text that survives a field of `n` bytes: its UTF-8 encoding fits and
/// it does not end in NUL.
pub open spec fn text_fits(s: Seq<char>, n: nat) -> bool {
    encode_utf8(s).len() <= n && (s.len() == 0 || s.last() != '\0')
}

/// The tickets that serialization and parsing carry through unchanged:
/// serial, username and service ID fit the bytes that are read back (20,
/// 32 and 19), region and domain are non-empty and fit 2 bytes, and no
/// text ends in NUL.
pub open spec fn survives_serialization(t: TicketModel) -> bool {
    &&& text_fits(t.serial, 20)
    &&& text_fits(t.username, 32)
    &&& text_fits(t.region, 2) && t.region.len() > 0
    &&& text_fits(t.domain, 2) && t.domain.len() > 0
    &&& text_fits(t.service_id, 19)
}

proof fn lemma_be_bytes_shift(v: nat, n: nat)
    ensures
        be_bytes(v * 0x1_0000, n + 2) == be_bytes(v, n) + seq![0u8, 0u8],
{
    assert((v * 0x1_0000) / 256 == v * 256);
    assert((v * 0x1_0000) % 256 == 0);
    assert((v * 256) / 256 == v);
    assert((v * 256) % 256 == 0);
    assert(be_bytes(v * 0x1_0000, n + 2) =~= be_bytes(v * 256, n + 1).push(0u8));
    assert(be_bytes(v * 256, n + 1) =~= be_bytes(v, n).push(0u8));
}

/// Where the fields of a serialized ticket lie.
pub proof fn lemma_to_bytes_layout(t: TicketModel, v: Version, sig: Seq<u8>)
    requires
        sig.len() == 56,
    ensures
        ({
            let b = spec_to_bytes(t, v, sig);
            &&& b.len() == 248
            &&& b.take(2) == be_bytes(v.spec_code() as nat, 2)
            &&& b.subrange(8, 0xB0) == spec_user_blob(t)
            &&& b.subrange(0x10, 0x24) == text_field(t.serial, 0x14)
            &&& b.subrange(0x28, 0x2C) == be_bytes(t.issuer_id as nat, 4)
            &&& b.subrange(0x30, 0x38) == be_bytes(t.issued_at as nat, 8)
            &&& b.subrange(0x3C, 0x44) == be_bytes(t.expires_at as nat, 8)
            &&& b.subrange(0x48, 0x50) == be_bytes(t.account_id as nat, 8)
            &&& b.subrange(0x54, 0x74) == text_field(t.username, 0x20)
            &&& b.subrange(0x78, 0x7C) == text_field(t.region, 4)
            &&& b.subrange(0x80, 0x84) == text_field(t.domain, 4)
            &&& b.subrange(0x88, 0xA0) == text_field(t.service_id, 0x18)
            &&& b.subrange(0xA4, 0xA8) == be_bytes(t.status as nat, 4)
            &&& b.subrange(0xB8, 0xBC) == rpcn_id()
            &&& b.subrange(0xC0, 248) == sig
        }),
{
    lemma_user_blob_len(t);
    lemma_item_len(0x3000, spec_user_items(t));
    lemma_item_len(8, rpcn_id());
    lemma_item_len(8, sig);
    lemma_item_len(0x3002, item_bytes(8, rpcn_id()) + item_bytes(8, sig));
    lemma_be_bytes_len(v.spec_code() as nat * 0x1_0000, 4);
    lemma_be_bytes_len(v.spec_code() as nat, 2);
    lemma_be_bytes_shift(v.spec_code() as nat, 2);
    lemma_be_bytes_len(t.issuer_id as nat, 4);
    lemma_be_bytes_len(t.issued_at as nat, 8);
    lemma_be_bytes_len(t.expires_at as nat, 8);
    lemma_be_bytes_len(t.account_id as nat, 8);
    lemma_be_bytes_len(t.status as nat, 4);
    lemma_be_bytes_len(0x3000, 2);
    lemma_be_bytes_len(0xA4, 2);
    let b = spec_to_bytes(t, v, sig);
    lemma_be_bytes_len((spec_user_blob(t).len() + spec_signature_blob(sig).len()) as nat, 4);
    assert(b.take(2) =~= be_bytes(v.spec_code() as nat, 2));
    assert(b.subrange(8, 0xB0) =~= spec_user_blob(t));
    let u = spec_user_blob(t);
    assert(b.subrange(0x10, 0x24) =~= u.subrange(8, 28));
    assert(u.subrange(8, 28) =~= text_field(t.serial, 0x14));
    assert(b.subrange(0x28, 0x2C) =~= u.subrange(32, 36));
    assert(u.subrange(32, 36) =~= be_bytes(t.issuer_id as nat, 4));
    assert(b.subrange(0x30, 0x38) =~= u.subrange(40, 48));
    assert(u.subrange(40, 48) =~= be_bytes(t.issued_at as nat, 8));
    assert(b.subrange(0x3C, 0x44) =~= u.subrange(52, 60));
    assert(u.subrange(52, 60) =~= be_bytes(t.expires_at as nat, 8));
    assert(b.subrange(0x48, 0x50) =~= u.subrange(64, 72));
    assert(u.subrange(64, 72) =~= be_bytes(t.account_id as nat, 8));
    assert(b.subrange(0x54, 0x74) =~= u.subrange(76, 108));
    assert(u.subrange(76, 108) =~= text_field(t.username, 0x20));
    assert(b.subrange(0x78, 0x7C) =~= u.subrange(112, 116));
    assert(u.subrange(112, 116) =~= text_field(t.region, 4));
    assert(b.subrange(0x80, 0x84) =~= u.subrange(120, 124));
    assert(u.subrange(120, 124) =~= text_field(t.domain, 4));
    assert(b.subrange(0x88, 0xA0) =~= u.subrange(128, 152));
    assert(u.subrange(128, 152) =~= text_field(t.service_id, 0x18));
    assert(b.subrange(0xA4, 0xA8) =~= u.subrange(156, 160));
    assert(u.subrange(156, 160) =~= be_bytes(t.status as nat, 4));
    assert(b.subrange(0xB8, 0xBC) =~= rpcn_id());
    assert(b.subrange(0xC0, 248) =~= sig);
}


/// The ticket `t` as parsing gives it back from its serialization: with an
/// RPCN signature over the user data section.
pub open spec fn as_parsed(t: TicketModel) -> TicketModel {
    TicketModel { emulator: true, signed_data: spec_user_blob(t), ..t }
}

/// What a read gives back of a write: parsing a serialized ticket of
/// version 2 or 3 (with an RPCN signature of 56 bytes) gives back every
/// field of the ticket, with the user data section as its signed data,
/// whenever its dates check at `now`. The buffer is left unchanged, and the
/// outcome is that of checking the signature bytes against the signed data.
#[verifier::rlimit(60)]
pub proof fn lemma_parse_to_bytes(
    t: TicketModel,
    v: Version,
    sig: Seq<u8>,
    now: Option<u64>,
    psn: Option<Seq<char>>,
    rpcn: Option<Seq<char>>,
)
    requires
        v != Version::V4,
        sig.len() == 56,
        survives_serialization(t),
        spec_check_dates(t.issued_at, t.expires_at, now) is Ok,
    ensures
        ({
            let b = spec_to_bytes(t, v, sig);
            let m = as_parsed(t);
            &&& spec_version(b) == Some(v)
            &&& !spec_panics(b, now)
            &&& spec_parse(b, v, now) == (Ok::<TicketModel, &'static str>(m), b)
            &&& spec_signature_bytes(b, v, true) == sig
            &&& spec_from_bytes(b, psn, rpcn, now) == (match spec_check_signature(m, b, v, psn, rpcn) {
                Ok(_) => Ok::<TicketModel, &'static str>(m),
                Err(e) => Err(e),
            }, b)
        }),
{
    let b = spec_to_bytes(t, v, sig);
    let m = as_parsed(t);
    assert(b.len() == 248 && spec_version(b) == Some(v) && spec_signature_bytes(b, v, true) == sig) by {
        lemma_to_bytes_layout(t, v, sig);
        lemma_pow256_facts();
        lemma_be_value_of_bytes(v.spec_code() as nat, 2);
    }
    assert(spec_parse(b, v, now) == (Ok::<TicketModel, &'static str>(m), b)) by {
        lemma_timestamps_of_to_bytes(t, v, sig, now);
        lemma_model_of_to_bytes(t, v, sig);
    }
}

proof fn lemma_timestamps_of_to_bytes(t: TicketModel, v: Version, sig: Seq<u8>, now: Option<u64>)
    requires
        v != Version::V4,
        sig.len() == 56,
        spec_check_dates(t.issued_at, t.expires_at, now) is Ok,
    ensures
        spec_timestamps(spec_to_bytes(t, v, sig), spec_layout(v), now) == (
            Ok::<(u64, u64), &'static str>((t.issued_at, t.expires_at)),
            spec_to_bytes(t, v, sig),
        ),
{
    let b = spec_to_bytes(t, v, sig);
    lemma_to_bytes_layout(t, v, sig);
    lemma_pow256_facts();
    lemma_be_value_of_bytes(t.issued_at as nat, 8);
    lemma_be_value_of_bytes(t.expires_at as nat, 8);
    assert(be64_at(b, 0x30) == t.issued_at);
    assert(be64_at(b, 0x3C) == t.expires_at);
}

proof fn lemma_model_of_to_bytes(t: TicketModel, v: Version, sig: Seq<u8>)
    requires
        v != Version::V4,
        sig.len() == 56,
        survives_serialization(t),
    ensures
        spec_model(spec_to_bytes(t, v, sig), v, t.issued_at, t.expires_at) == as_parsed(t),
{
    let b = spec_to_bytes(t, v, sig);
    lemma_to_bytes_layout(t, v, sig);
    lemma_pow256_facts();
    lemma_be_value_of_bytes(t.issuer_id as nat, 4);
    lemma_be_value_of_bytes(t.account_id as nat, 8);
    lemma_be_value_of_bytes(t.status as nat, 4);
    lemma_decode_padded_text(t.serial, 0x14, 0x14);
    lemma_decode_padded_text(t.username, 0x20, 0x20);
    lemma_decode_padded_text(t.region, 4, 2);
    lemma_decode_padded_text(t.domain, 4, 2);
    lemma_decode_padded_text(t.service_id, 0x18, 19);
    assert(text_field(t.serial, 0x14).take(0x14) =~= text_field(t.serial, 0x14));
    assert(text_field(t.username, 0x20).take(0x20) =~= text_field(t.username, 0x20));
    assert(b.subrange(0x78, 0x7A) =~= text_field(t.region, 4).take(2));
    assert(b.subrange(0x80, 0x82) =~= text_field(t.domain, 4).take(2));
    assert(b.subrange(0x88, 0x9B) =~= text_field(t.service_id, 0x18).take(19));
    assert(text_at(b, 0x10, 20) == t.serial);
    assert(text_at(b, 0x54, 32) == t.username);
    assert(text_at(b, 0x78, 2) == t.region);
    assert(text_at(b, 0x80, 2) == t.domain);
    assert(text_at(b, 0x88, 19) == t.service_id);
    assert(be32_at(b, 0x28) == t.issuer_id);
    assert(be64_at(b, 0x48) == t.account_id);
    assert(be32_at(b, 0xA4) == t.status);
    assert(spec_is_emulator(b, v));
}


/// A version code read back gives the version, and only the four codes of
/// the format are versions.
pub proof fn lemma_version_code(v: Version, code: u16)
    ensures
        Version::spec_from_u16(v.spec_code()) == Some(v),
        Version::spec_from_u16(code) is Some <==> (code == 0x2100 || code == 0x2101 || code == 0x3100
            || code == 0x4100),
        Version::spec_from_u16(code) matches Some(w) ==> w.spec_code() == code,
{
}

/// The dates check at `now` exactly when both are non-zero, the expiry is
/// after the issue, the issue is at most 5 minutes ahead of `now` and the
/// expiry at most a year ahead of it (dates in milliseconds, `now` in
/// seconds).
pub proof fn lemma_dates_check(issued_at: u64, expires_at: u64, now: u64)
    ensures
        spec_check_dates(issued_at, expires_at, Some(now)) is Ok <==> {
            &&& 0 < issued_at < expires_at
            &&& issued_at <= now * 1000 + 300_000
            &&& expires_at <= now * 1000 + 31_536_000_000
        },
{
}

/// Without a clock reading after the UNIX epoch no dates check.
pub proof fn lemma_dates_need_clock(issued_at: u64, expires_at: u64)
    ensures
        spec_check_dates(issued_at, expires_at, None) is Err,
{
}

/// Whether byte `i` lies in a timestamp field of a ticket of version `v`.
pub open spec fn in_timestamp_fields(v: Version, i: int) -> bool {
    let l = layout_of(v);
    ||| l.issued_at <= i < l.issued_at + 8
    ||| l.expires_at <= i < l.expires_at + 8
}

/// Parsing changes the buffer only in the timestamp fields of its
/// version, and only by byte-swapping them; it keeps the length.
pub proof fn lemma_parse_changes_only_timestamps(
    b: Seq<u8>,
    psn: Option<Seq<char>>,
    rpcn: Option<Seq<char>>,
    now: Option<u64>,
)
    ensures
        ({
            let after = spec_from_bytes(b, psn, rpcn, now).1;
            &&& after.len() == b.len()
            &&& after == b || (spec_version(b) matches Some(v) && 212 <= b.len() <= 400 && forall|i: int|
                0 <= i < b.len() && !in_timestamp_fields(v, i) ==> after[i] == b[i])
        }),
{
    if b.len() > 0 {
        if let Some(v) = spec_version(b) {
            if 212 <= b.len() <= 400 {
                let l = layout_of(v);
                let b1 = reverse_range(b, l.issued_at as int, l.issued_at + 8);
                let b2 = reverse_range(b1, l.expires_at as int, l.expires_at + 8);
                assert(b1.len() == b.len());
                assert(b2.len() == b.len());
                assert forall|i: int| 0 <= i < b.len() && !in_timestamp_fields(v, i) implies b2[i] == b[i] by {
                    assert(b1[i] == b[i]);
                }
            }
        }
    }
}

/// The endianness fix: when the timestamps do not check read big-endian but
/// do read little-endian, parsing takes the little-endian values.
pub proof fn lemma_little_endian_timestamps(b: Seq<u8>, v: Version, now: Option<u64>)
    requires
        212 <= b.len() <= 400,
        ({
            let l = layout_of(v);
            &&& spec_check_dates(be64_at(b, l.issued_at as int), be64_at(b, l.expires_at as int), now) is Err
            &&& spec_check_dates(
                le64_at(b, l.issued_at as int),
                le64_at(b, l.expires_at as int),
                now,
            ) is Ok
        }),
    ensures
        ({
            let l = layout_of(v);
            spec_timestamps(b, l, now).0 == Ok::<(u64, u64), &'static str>((le64_at(b, l.issued_at as int), le64_at(b, l.expires_at as int)))
        }),
{
    let l = layout_of(v);
    let b1 = reverse_range(b, l.issued_at as int, l.issued_at + 8);
    let b2 = reverse_range(b1, l.expires_at as int, l.expires_at + 8);
    assert(b2.subrange(l.issued_at as int, l.issued_at + 8) =~= b.subrange(l.issued_at as int, l.issued_at + 8).reverse());
    assert(b2.subrange(l.expires_at as int, l.expires_at + 8) =~= b.subrange(l.expires_at as int, l.expires_at + 8).reverse());
}

/// The little-endian value of the 8 bytes of `b` at `at`.
pub open spec fn le64_at(b: Seq<u8>, at: int) -> u64 {
    be_value(b.subrange(at, at + 8).reverse()) as u64
}

/// An empty buffer is refused, whatever the keys and the time.
pub proof fn lemma_empty_buffer(psn: Option<Seq<char>>, rpcn: Option<Seq<char>>, now: Option<u64>)
    ensures
        spec_from_bytes(Seq::empty(), psn, rpcn, now).0 == Err::<TicketModel, &'static str>(ERR_EMPTY_BUFFER),
{
}

/// The header of a written item states the length of its payload, for
/// items whose byte strings are shorter than 2^16 bytes: the item takes its
/// length plus 4 bytes.
pub proof fn lemma_encode_len(d: TicketData)
    requires
        d.payloads_fit(),
    ensures
        d.spec_encode().len() == d.spec_len() + 4,
    decreases d,
{
    crate::bytes::lemma_be_bytes_len(d.spec_id() as nat, 2);
    TicketData::lemma_len_nonneg(d);
    crate::bytes::lemma_be_bytes_len(d.spec_len() as nat, 2);
    match d {
        TicketData::U32(v) => crate::bytes::lemma_be_bytes_len(v as nat, 4),
        TicketData::U64(v) => crate::bytes::lemma_be_bytes_len(v as nat, 8),
        TicketData::Time(v) => crate::bytes::lemma_be_bytes_len(v as nat, 8),
        TicketData::Blob(_, subs) => {
            TicketData::lemma_all_payloads_fit(subs@);
            assert forall|i: int| 0 <= i < subs@.len() implies (#[trigger] subs@[i]).spec_encode().len()
                == subs@[i].spec_len() + 4 by {
                assert(decreases_to!(subs => subs@[i])) by {
                    broadcast use vstd::std_specs::vec::axiom_vec_index_decreases;
                }
                lemma_encode_len(subs@[i]);
            }
            lemma_encode_all_len(subs@);
        },
        _ => {},
    }
}

proof fn lemma_encode_all_len(s: Seq<TicketData>)
    requires
        forall|i: int| 0 <= i < s.len() ==> (#[trigger] s[i]).spec_encode().len() == s[i].spec_len() + 4,
    ensures
        TicketData::encode_all(s).len() == TicketData::sum_len(s),
    decreases s.len(),
{
    if s.len() > 0 {
        assert forall|i: int| 0 <= i < s.drop_last().len() implies (#[trigger] s.drop_last()[i]).spec_encode().len()
            == s.drop_last()[i].spec_len() + 4 by {
            assert(s.drop_last()[i] == s[i]);
        }
        lemma_encode_all_len(s.drop_last());
        assert(s.last() == s[s.len() - 1]);
    }
}


/// The text of the 2-byte field of `b` at `at`.
pub open spec fn short_text(b: Seq<u8>, at: int) -> Seq<char> {
    spec_decode_string(b.subrange(at, at + 2))
}

/// Region and domain of a parsed ticket. Below version 4 (2, 2.1 and 3)
/// the region is the text of the 2 bytes at 0x78 and the domain that of the
/// 2 bytes at 0x80, with an empty region read as "br" and an empty domain
/// as "un" (the RPCN defaults). In version 4 they are the texts of the 2
/// bytes at 0x7C and 0x84, with no defaults.
pub proof fn lemma_region_domain_defaults(
    b: Seq<u8>,
    psn: Option<Seq<char>>,
    rpcn: Option<Seq<char>>,
    now: Option<u64>,
)
    ensures
        spec_from_bytes(b, psn, rpcn, now).0 matches Ok(m) ==> {
            if spec_version(b) == Some(Version::V4) {
                &&& m.region == short_text(b, 0x7C)
                &&& m.domain == short_text(b, 0x84)
            } else {
                &&& short_text(b, 0x78).len() == 0 ==> m.region == DEFAULT_REGION@
                &&& short_text(b, 0x78).len() > 0 ==> m.region == short_text(b, 0x78)
                &&& short_text(b, 0x80).len() == 0 ==> m.domain == DEFAULT_DOMAIN@
                &&& short_text(b, 0x80).len() > 0 ==> m.domain == short_text(b, 0x80)
            }
        },
{
    if b.len() > 0 && 212 <= b.len() <= 400 {
        if let Some(v) = spec_version(b) {
            let l = layout_of(v);
            let b1 = reverse_range(b, l.issued_at as int, l.issued_at + 8);
            let b2 = reverse_range(b1, l.expires_at as int, l.expires_at + 8);
            assert(b1.subrange(l.region as int, l.region + 2) =~= b.subrange(l.region as int, l.region + 2));
            assert(b2.subrange(l.region as int, l.region + 2) =~= b1.subrange(l.region as int, l.region + 2));
            assert(b1.subrange(l.domain as int, l.domain + 2) =~= b.subrange(l.domain as int, l.domain + 2));
            assert(b2.subrange(l.domain as int, l.domain + 2) =~= b1.subrange(l.domain as int, l.domain + 2));
        }
    }
}

/// The item headers of a serialized ticket: each item carries its type id
/// and payload length. The serial (binary, 0x14 bytes) at 12, the issuer
/// (u32) at 36, the issue and expiry times (time, 8 bytes) at 44 and 56,
/// the account (u64) at 68, the username (string, 0x20 bytes) at 80, the
/// region (binary, 4) at 116, the domain (string, 4) at 124, the service ID
/// (binary, 0x18) at 132, the status (u32) at 160, two empty items at 168
/// and 172; the user blob (0x3000, 0xA4 bytes) at 8, the signature blob
/// (0x3002, 0x44 bytes) at 0xB0 with the binary ID and signature items.
/// The fixed-width items are the encodings of the matching `TicketData`
/// items.
pub proof fn lemma_to_bytes_item_headers(t: TicketModel, v: Version, sig: Seq<u8>)
    requires
        sig.len() == 56,
    ensures
        ({
            let b = spec_to_bytes(t, v, sig);
            &&& b.subrange(8, 12) == seq![0x30u8, 0x00, 0x00, 0xA4]
            &&& b.subrange(12, 16) == seq![0x00u8, 0x08, 0x00, 0x14]
            &&& b.subrange(36, 40) == seq![0x00u8, 0x01, 0x00, 0x04]
            &&& b.subrange(44, 48) == seq![0x00u8, 0x07, 0x00, 0x08]
            &&& b.subrange(56, 60) == seq![0x00u8, 0x07, 0x00, 0x08]
            &&& b.subrange(68, 72) == seq![0x00u8, 0x02, 0x00, 0x08]
            &&& b.subrange(80, 84) == seq![0x00u8, 0x04, 0x00, 0x20]
            &&& b.subrange(116, 120) == seq![0x00u8, 0x08, 0x00, 0x04]
            &&& b.subrange(124, 128) == seq![0x00u8, 0x04, 0x00, 0x04]
            &&& b.subrange(132, 136) == seq![0x00u8, 0x08, 0x00, 0x18]
            &&& b.subrange(160, 164) == seq![0x00u8, 0x01, 0x00, 0x04]
            &&& b.subrange(168, 172) == seq![0x00u8, 0x00, 0x00, 0x00]
            &&& b.subrange(172, 176) == seq![0x00u8, 0x00, 0x00, 0x00]
            &&& b.subrange(0xB0, 0xB4) == seq![0x30u8, 0x02, 0x00, 0x44]
            &&& b.subrange(0xB4, 0xB8) == seq![0x00u8, 0x08, 0x00, 0x04]
            &&& b.subrange(0xBC, 0xC0) == seq![0x00u8, 0x08, 0x00, 0x38]
            &&& b.subrange(36, 44) == TicketData::U32(t.issuer_id).spec_encode()
            &&& b.subrange(44, 56) == TicketData::Time(t.issued_at).spec_encode()
            &&& b.subrange(56, 68) == TicketData::Time(t.expires_at).spec_encode()
            &&& b.subrange(68, 80) == TicketData::U64(t.account_id).spec_encode()
            &&& b.subrange(160, 168) == TicketData::U32(t.status).spec_encode()
            &&& b.subrange(168, 172) == TicketData::Empty().spec_encode()
        }),
{
    let b = spec_to_bytes(t, v, sig);
    let u = spec_user_blob(t);
    let s = spec_signature_blob(sig);
    lemma_to_bytes_layout(t, v, sig);
    lemma_user_blob_headers(t);
    lemma_signature_blob_headers(sig);
    lemma_user_blob_len(t);
    lemma_item_len(8, rpcn_id());
    lemma_item_len(8, sig);
    lemma_item_len(0x3002, item_bytes(8, rpcn_id()) + item_bytes(8, sig));
    lemma_be_bytes_len(v.spec_code() as nat * 0x1_0000, 4);
    lemma_be_bytes_len((u.len() + s.len()) as nat, 4);
    assert(b.subrange(0xB0, 248) =~= s);
    assert forall|a: int, e: int| 8 <= a <= e <= 0xB0 implies #[trigger] b.subrange(a, e) == u.subrange(a - 8, e - 8) by {
        assert(b.subrange(a, e) =~= b.subrange(8, 0xB0).subrange(a - 8, e - 8));
    }
    assert forall|a: int, e: int| 0xB0 <= a <= e <= 248 implies #[trigger] b.subrange(a, e) == s.subrange(a - 0xB0, e - 0xB0) by {
        assert(b.subrange(a, e) =~= b.subrange(0xB0, 248).subrange(a - 0xB0, e - 0xB0));
    }
    assert(b.subrange(8, 12) == u.subrange(0, 4));
    assert(b.subrange(12, 16) == u.subrange(4, 8));
    assert(b.subrange(36, 40) == u.subrange(28, 32));
    assert(b.subrange(44, 48) == u.subrange(36, 40));
    assert(b.subrange(56, 60) == u.subrange(48, 52));
    assert(b.subrange(68, 72) == u.subrange(60, 64));
    assert(b.subrange(80, 84) == u.subrange(72, 76));
    assert(b.subrange(116, 120) == u.subrange(108, 112));
    assert(b.subrange(124, 128) == u.subrange(116, 120));
    assert(b.subrange(132, 136) == u.subrange(124, 128));
    assert(b.subrange(160, 164) == u.subrange(152, 156));
    assert(b.subrange(168, 172) == u.subrange(160, 164));
    assert(b.subrange(172, 176) == u.subrange(164, 168));
    assert(b.subrange(36, 44) == u.subrange(28, 36));
    assert(b.subrange(44, 56) == u.subrange(36, 48));
    assert(b.subrange(56, 68) == u.subrange(48, 60));
    assert(b.subrange(68, 80) == u.subrange(60, 72));
    assert(b.subrange(160, 168) == u.subrange(152, 160));
    assert(b.subrange(0xB0, 0xB4) == s.subrange(0, 4));
    assert(b.subrange(0xB4, 0xB8) == s.subrange(4, 8));
    assert(b.subrange(0xBC, 0xC0) == s.subrange(12, 16));
}

proof fn lemma_user_blob_headers(t: TicketModel)
    ensures
        ({
            let u = spec_user_blob(t);
            &&& u.subrange(0, 4) == seq![0x30u8, 0x00, 0x00, 0xA4]
            &&& u.subrange(4, 8) == seq![0x00u8, 0x08, 0x00, 0x14]
            &&& u.subrange(28, 32) == seq![0x00u8, 0x01, 0x00, 0x04]
            &&& u.subrange(36, 40) == seq![0x00u8, 0x07, 0x00, 0x08]
            &&& u.subrange(48, 52) == seq![0x00u8, 0x07, 0x00, 0x08]
            &&& u.subrange(60, 64) == seq![0x00u8, 0x02, 0x00, 0x08]
            &&& u.subrange(72, 76) == seq![0x00u8, 0x04, 0x00, 0x20]
            &&& u.subrange(108, 112) == seq![0x00u8, 0x08, 0x00, 0x04]
            &&& u.subrange(116, 120) == seq![0x00u8, 0x04, 0x00, 0x04]
            &&& u.subrange(124, 128) == seq![0x00u8, 0x08, 0x00, 0x18]
            &&& u.subrange(152, 156) == seq![0x00u8, 0x01, 0x00, 0x04]
            &&& u.subrange(160, 164) == seq![0x00u8, 0x00, 0x00, 0x00]
            &&& u.subrange(164, 168) == seq![0x00u8, 0x00, 0x00, 0x00]
            &&& u.subrange(28, 36) == TicketData::U32(t.issuer_id).spec_encode()
            &&& u.subrange(36, 48) == TicketData::Time(t.issued_at).spec_encode()
            &&& u.subrange(48, 60) == TicketData::Time(t.expires_at).spec_encode()
            &&& u.subrange(60, 72) == TicketData::U64(t.account_id).spec_encode()
            &&& u.subrange(152, 160) == TicketData::U32(t.status).spec_encode()
            &&& u.subrange(160, 164) == TicketData::Empty().spec_encode()
        }),
{
    let u = spec_user_blob(t);
    lemma_user_blob_len(t);
    lemma_item_len(0x3000, spec_user_items(t));
    lemma_be_bytes_len(t.issuer_id as nat, 4);
    lemma_be_bytes_len(t.issued_at as nat, 8);
    lemma_be_bytes_len(t.expires_at as nat, 8);
    lemma_be_bytes_len(t.account_id as nat, 8);
    lemma_be_bytes_len(t.status as nat, 4);
    lemma_small_be_bytes();
    assert(u.subrange(0, 4) =~= seq![0x30u8, 0x00, 0x00, 0xA4]);
    assert(u.subrange(4, 8) =~= seq![0x00u8, 0x08, 0x00, 0x14]);
    assert(u.subrange(28, 32) =~= seq![0x00u8, 0x01, 0x00, 0x04]);
    assert(u.subrange(36, 40) =~= seq![0x00u8, 0x07, 0x00, 0x08]);
    assert(u.subrange(48, 52) =~= seq![0x00u8, 0x07, 0x00, 0x08]);
    assert(u.subrange(60, 64) =~= seq![0x00u8, 0x02, 0x00, 0x08]);
    assert(u.subrange(72, 76) =~= seq![0x00u8, 0x04, 0x00, 0x20]);
    assert(u.subrange(108, 112) =~= seq![0x00u8, 0x08, 0x00, 0x04]);
    assert(u.subrange(116, 120) =~= seq![0x00u8, 0x04, 0x00, 0x04]);
    assert(u.subrange(124, 128) =~= seq![0x00u8, 0x08, 0x00, 0x18]);
    assert(u.subrange(152, 156) =~= seq![0x00u8, 0x01, 0x00, 0x04]);
    assert(u.subrange(160, 164) =~= seq![0x00u8, 0x00, 0x00, 0x00]);
    assert(u.subrange(164, 168) =~= seq![0x00u8, 0x00, 0x00, 0x00]);
    assert(u.subrange(28, 36) =~= TicketData::U32(t.issuer_id).spec_encode());
    assert(u.subrange(36, 48) =~= TicketData::Time(t.issued_at).spec_encode());
    assert(u.subrange(48, 60) =~= TicketData::Time(t.expires_at).spec_encode());
    assert(u.subrange(60, 72) =~= TicketData::U64(t.account_id).spec_encode());
    assert(u.subrange(152, 160) =~= TicketData::U32(t.status).spec_encode());
    assert(u.subrange(160, 164) =~= TicketData::Empty().spec_encode());
}

proof fn lemma_signature_blob_headers(sig: Seq<u8>)
    requires
        sig.len() == 56,
    ensures
        ({
            let s = spec_signature_blob(sig);
            &&& s.subrange(0, 4) == seq![0x30u8, 0x02, 0x00, 0x44]
            &&& s.subrange(4, 8) == seq![0x00u8, 0x08, 0x00, 0x04]
            &&& s.subrange(12, 16) == seq![0x00u8, 0x08, 0x00, 0x38]
        }),
{
    let s = spec_signature_blob(sig);
    lemma_item_len(8, rpcn_id());
    lemma_item_len(8, sig);
    lemma_small_be_bytes();
    assert(s.subrange(0, 4) =~= seq![0x30u8, 0x02, 0x00, 0x44]);
    assert(s.subrange(4, 8) =~= seq![0x00u8, 0x08, 0x00, 0x04]);
    assert(s.subrange(12, 16) =~= seq![0x00u8, 0x08, 0x00, 0x38]);
}

/// The two-byte encodings of the ids and lengths that item headers use.
proof fn lemma_small_be_bytes()
    ensures
        be_bytes(0, 2) == seq![0x00u8, 0x00],
        be_bytes(1, 2) == seq![0x00u8, 0x01],
        be_bytes(2, 2) == seq![0x00u8, 0x02],
        be_bytes(4, 2) == seq![0x00u8, 0x04],
        be_bytes(7, 2) == seq![0x00u8, 0x07],
        be_bytes(8, 2) == seq![0x00u8, 0x08],
        be_bytes(0x14, 2) == seq![0x00u8, 0x14],
        be_bytes(0x18, 2) == seq![0x00u8, 0x18],
        be_bytes(0x20, 2) == seq![0x00u8, 0x20],
        be_bytes(0x38, 2) == seq![0x00u8, 0x38],
        be_bytes(0x44, 2) == seq![0x00u8, 0x44],
        be_bytes(0xA4, 2) == seq![0x00u8, 0xA4],
        be_bytes(0x3000, 2) == seq![0x30u8, 0x00],
        be_bytes(0x3002, 2) == seq![0x30u8, 0x02],
{
    reveal_with_fuel(be_bytes, 3);
    assert(be_bytes(0, 2) =~= seq![0x00u8, 0x00]);
    assert(be_bytes(1, 2) =~= seq![0x00u8, 0x01]);
    assert(be_bytes(2, 2) =~= seq![0x00u8, 0x02]);
    assert(be_bytes(4, 2) =~= seq![0x00u8, 0x04]);
    assert(be_bytes(7, 2) =~= seq![0x00u8, 0x07]);
    assert(be_bytes(8, 2) =~= seq![0x00u8, 0x08]);
    assert(be_bytes(0x14, 2) =~= seq![0x00u8, 0x14]);
    assert(be_bytes(0x18, 2) =~= seq![0x00u8, 0x18]);
    assert(be_bytes(0x20, 2) =~= seq![0x00u8, 0x20]);
    assert(be_bytes(0x38, 2) =~= seq![0x00u8, 0x38]);
    assert(be_bytes(0x44, 2) =~= seq![0x00u8, 0x44]);
    assert(be_bytes(0xA4, 2) =~= seq![0x00u8, 0xA4]);
    assert(be_bytes(0x3000, 2) =~= seq![0x30u8, 0x00]);
    assert(be_bytes(0x3002, 2) =~= seq![0x30u8, 0x02]);
}

} // verus!
