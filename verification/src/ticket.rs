//! A PlayStation Network ticket: parsing, checking and serializing.

use vstd::prelude::*;
use vstd::slice::slice_subrange;

use crate::crypto::{
    RpcnSigningKey, p224_key_from_pem, p224_signature_from_slice, p224_signature_from_der,
    p224_verify_prehash, p224_sign_prehash, sha224_digest, p192_key_from_pem, p256_key_from_pem,
    p192_signature_from_slice, p192_signature_from_der, p256_signature_from_slice,
    p256_signature_from_der, p192_verify_prehash, p256_verify_prehash, sha1_digest, sha256_digest,
    p192_signature_slice_ok, p192_signature_der_ok, p192_prehash_verifies, p256_signature_slice_ok,
    p256_signature_der_ok, p256_prehash_verifies, sha1, sha256,
    base64_encode, base64_decode, p224_pem_is_public_key, p224_signature_slice_ok,
    p224_signature_der_ok, p224_prehash_verifies, sha224, p256_pem_is_public_key,
    p192_pem_is_public_key, base64_standard_encode, base64_standard_decode, p224_sign,
};
use crate::bytes::{
    be_value, be_bytes, fit, read_be, push_be, fit_bytes, copy_range, lemma_be_value_bound, lemma_pow256_facts,
    lemma_be_bytes_len,
};
use crate::ticket_data::TicketData;
use vstd::utf8::encode_utf8;
use crate::dates::{spec_check_dates, validate_dates_at};
use crate::signature::{Signature, rpcn_id};
use crate::text::{decode_string, spec_decode_string};
use crate::version::Version;

verus! {

/// Default domain RPCN sets for players.
pub const DEFAULT_DOMAIN: &'static str = "un";

/// Default region RPCN sets for players.
pub const DEFAULT_REGION: &'static str = "br";

/// A ``PlayStation Network`` ticket for authenticating requests.
#[derive(Debug, Clone, PartialEq, Eq)]
pub struct Ticket {
    /// The ticket's serial number.
    pub serial: String,
    /// The issuer's ID.
    pub issuer_id: u32,
    /// The issued date as a UNIX timestamp.
    pub issued_at: u64,
    /// The expiration date as a UNIX timestamp.
    pub expires_at: u64,
    /// The account ID of the user.
    pub account_id: u64,
    /// The username of the user.
    pub username: String,
    /// The region the user is in.
    pub region: String,
    /// The domain the user is in.
    pub domain: String,
    /// The service ID the ticket was issued for.
    pub service_id: String,
    /// Status of the ticket (seems to be always 0)
    pub status: u32,
    /// The ticket's signature
    pub signature: Signature,
}

/// The mathematical content of a [`Ticket`].
pub ghost struct TicketModel {
    pub serial: Seq<char>,
    pub issuer_id: u32,
    pub issued_at: u64,
    pub expires_at: u64,
    pub account_id: u64,
    pub username: Seq<char>,
    pub region: Seq<char>,
    pub domain: Seq<char>,
    pub service_id: Seq<char>,
    pub status: u32,
    /// Whether the signature is an emulator (`RPCN`) signature.
    pub emulator: bool,
    /// The data the signature covers.
    pub signed_data: Seq<u8>,
}

impl View for Ticket {
    type V = TicketModel;

    open spec fn view(&self) -> TicketModel {
        TicketModel {
            serial: self.serial@,
            issuer_id: self.issuer_id,
            issued_at: self.issued_at,
            expires_at: self.expires_at,
            account_id: self.account_id,
            username: self.username@,
            region: self.region@,
            domain: self.domain@,
            service_id: self.service_id@,
            status: self.status,
            emulator: self.signature is Emulator,
            signed_data: self.signature.spec_signed_data(),
        }
    }
}

/// Where the fields of a ticket of one version start.
pub struct Layout {
    pub serial: usize,
    pub issuer_id: usize,
    pub issued_at: usize,
    pub expires_at: usize,
    pub account_id: usize,
    pub username: usize,
    pub region: usize,
    pub domain: usize,
    pub service_id: usize,
    pub status: usize,
    pub signature_id: usize,
}

/// Bytes read of the serial number.
pub const SERIAL_LEN: usize = 20;
/// Bytes read of the username.
pub const USERNAME_LEN: usize = 32;
/// Bytes read of the region.
pub const REGION_LEN: usize = 2;
/// Bytes read of the domain.
pub const DOMAIN_LEN: usize = 2;
/// Bytes read of the service ID.
pub const SERVICE_ID_LEN: usize = 19;

/// The field offsets of a ticket of version `v`. Version 4 tickets carry
/// no status.
pub open spec fn spec_layout(v: Version) -> Layout {
    match v {
        Version::V4 => Layout {
            serial: 0x14,
            issuer_id: 0x2C,
            issued_at: 0x34,
            expires_at: 0x40,
            account_id: 0x4C,
            username: 0x58,
            region: 0x7C,
            domain: 0x84,
            service_id: 0x8C,
            status: 0,
            signature_id: 0xC0,
        },
        _ => Layout {
            serial: 0x10,
            issuer_id: 0x28,
            issued_at: 0x30,
            expires_at: 0x3C,
            account_id: 0x48,
            username: 0x54,
            region: 0x78,
            domain: 0x80,
            service_id: 0x88,
            status: 0xA4,
            signature_id: 0xB8,
        },
    }
}

fn layout(v: Version) -> (r: Layout)
    ensures
        r == spec_layout(v),
{
    match v {
        Version::V4 => Layout {
            serial: 0x14,
            issuer_id: 0x2C,
            issued_at: 0x34,
            expires_at: 0x40,
            account_id: 0x4C,
            username: 0x58,
            region: 0x7C,
            domain: 0x84,
            service_id: 0x8C,
            status: 0,
            signature_id: 0xC0,
        },
        _ => Layout {
            serial: 0x10,
            issuer_id: 0x28,
            issued_at: 0x30,
            expires_at: 0x3C,
            account_id: 0x48,
            username: 0x54,
            region: 0x78,
            domain: 0x80,
            service_id: 0x88,
            status: 0xA4,
            signature_id: 0xB8,
        },
    }
}

/// `b` with the bytes in `[start, end)` in reverse order.
pub open spec fn reverse_range(b: Seq<u8>, start: int, end: int) -> Seq<u8> {
    b.subrange(0, start) + b.subrange(start, end).reverse() + b.subrange(end, b.len() as int)
}

/// Reverses `bytes[start..end]` in place.
fn reverse_in_place(bytes: &mut [u8], start: usize, end: usize)
    requires
        start <= end <= old(bytes)@.len(),
    ensures
        final(bytes)@ == reverse_range(old(bytes)@, start as int, end as int),
{
    let ghost orig = bytes@;
    let mut i: usize = start;
    let mut j: usize = end;
    while j - i > 1
        invariant
            start <= i <= j <= end <= orig.len(),
            i - start == end - j,
            bytes@.len() == orig.len(),
            forall|k: int| 0 <= k < start ==> bytes@[k] == orig[k],
            forall|k: int| end <= k < orig.len() ==> bytes@[k] == orig[k],
            forall|k: int| i <= k < j ==> bytes@[k] == orig[k],
            forall|k: int| start <= k < i ==> bytes@[k] == orig[end - 1 - (k - start)],
            forall|k: int| j <= k < end ==> bytes@[k] == orig[end - 1 - (k - start)],
        decreases j - i,
    {
        let a = bytes[i];
        let b = bytes[j - 1];
        bytes[i] = b;
        bytes[j - 1] = a;
        i = i + 1;
        j = j - 1;
    }
    assert(bytes@ =~= reverse_range(orig, start as int, end as int));
}

/// The big-endian value of the 8 bytes of `b` at `at`.
pub open spec fn be64_at(b: Seq<u8>, at: int) -> u64 {
    be_value(b.subrange(at, at + 8)) as u64
}

/// The timestamps of a ticket with layout `l` and the bytes after reading
/// them. They are first read big-endian; if the dates do not check at
/// `now`, both 8-byte fields are reversed in place and read again, and the
/// outcome of that second check stands.
pub open spec fn spec_timestamps(b: Seq<u8>, l: Layout, now: Option<u64>) -> (Result<(u64, u64), &'static str>, Seq<u8>) {
    let i1 = be64_at(b, l.issued_at as int);
    let e1 = be64_at(b, l.expires_at as int);
    if spec_check_dates(i1, e1, now) is Ok {
        (Ok((i1, e1)), b)
    } else {
        let b1 = reverse_range(b, l.issued_at as int, l.issued_at + 8);
        let b2 = reverse_range(b1, l.expires_at as int, l.expires_at + 8);
        let i2 = be64_at(b2, l.issued_at as int);
        let e2 = be64_at(b2, l.expires_at as int);
        match spec_check_dates(i2, e2, now) {
            Ok(_) => (Ok((i2, e2)), b2),
            Err(e) => (Err(e), b2),
        }
    }
}

/// Reads the 8 bytes at `at` as a little-endian value, leaving `bytes` as
/// it is.
fn read_le64(bytes: &[u8], at: usize) -> (r: u64)
    requires
        at + 8 <= bytes@.len(),
    ensures
        r as nat == be_value(bytes@.subrange(at as int, at + 8).reverse()),
{
    let _len = bytes.len();
    let mut field = copy_range(bytes, at, at + 8);
    reverse_in_place(field.as_mut_slice(), 0, 8);
    assert(field@ =~= bytes@.subrange(at as int, at + 8).reverse());
    assert(field@.subrange(0, 8) =~= field@);
    read_be(field.as_slice(), 0, 8)
}

/// Reads the timestamps, fixing their endianness if needed.
fn parse_timestamps(bytes: &mut [u8], l: &Layout, now: Option<u64>) -> (r: Result<(u64, u64), &'static str>)
    requires
        l.issued_at + 8 <= old(bytes)@.len(),
        l.expires_at + 8 <= old(bytes)@.len(),
    ensures
        (r, final(bytes)@) == spec_timestamps(old(bytes)@, *l, now),
{
    proof {
        lemma_pow256_facts();
        lemma_be_value_bound(bytes@.subrange(l.issued_at as int, l.issued_at + 8));
        lemma_be_value_bound(bytes@.subrange(l.expires_at as int, l.expires_at + 8));
    }
    let _len = bytes.len();
    let mut issued_at = read_be(bytes, l.issued_at, 8);
    let mut expires_at = read_be(bytes, l.expires_at, 8);

    // If validation fails, try swapping endianness
    if validate_dates_at(issued_at, expires_at, now).is_err() {
        reverse_in_place(bytes, l.issued_at, l.issued_at + 8);
        reverse_in_place(bytes, l.expires_at, l.expires_at + 8);
        proof {
            lemma_be_value_bound(bytes@.subrange(l.issued_at as int, l.issued_at + 8));
            lemma_be_value_bound(bytes@.subrange(l.expires_at as int, l.expires_at + 8));
        }
        issued_at = read_be(bytes, l.issued_at, 8);
        expires_at = read_be(bytes, l.expires_at, 8);
        match validate_dates_at(issued_at, expires_at, now) {
            Ok(_) => {},
            Err(e) => return Err(e),
        }
    }
    Ok((issued_at, expires_at))
}


/// The big-endian value of the 4 bytes of `b` at `at`.
pub open spec fn be32_at(b: Seq<u8>, at: int) -> u32 {
    be_value(b.subrange(at, at + 4)) as u32
}

/// The text of the `n`-byte field of `b` at `at`.
pub open spec fn text_at(b: Seq<u8>, at: int, n: int) -> Seq<char> {
    spec_decode_string(b.subrange(at, at + n))
}

/// Whether the signature ID of a ticket of version `v` marks an emulator
/// (`RPCN`) signature.
pub open spec fn spec_is_emulator(b: Seq<u8>, v: Version) -> bool {
    let at = spec_layout(v).signature_id as int;
    b.subrange(at, at + 4) == rpcn_id()
}

/// The data a signature covers: for the emulator the user data section,
/// for the console everything from offset 8 up to the signature and a
/// 16-byte trailer (measured from the expected length for versions below
/// 4, from the actual length for version 4).
pub open spec fn spec_signed_range(b: Seq<u8>, v: Version, emulator: bool) -> Seq<u8> {
    if emulator {
        b.subrange(8, 0xB0)
    } else if v == Version::V4 {
        b.subrange(8, b.len() - (v.spec_console_signature_length() + 16))
    } else {
        b.subrange(8, v.spec_ticket_length() - (v.spec_console_signature_length() + 16))
    }
}

/// The signature bytes: for the emulator everything from offset 0xC0,
/// for the console the last bytes of the buffer.
pub open spec fn spec_signature_bytes(b: Seq<u8>, v: Version, emulator: bool) -> Seq<u8> {
    if emulator {
        b.subrange(0xC0, b.len() as int)
    } else {
        b.subrange(b.len() - v.spec_console_signature_length(), b.len() as int)
    }
}

/// `text`, or `default` where `text` is empty.
pub open spec fn or_default(text: Seq<char>, default: Seq<char>) -> Seq<char> {
    if text.len() == 0 {
        default
    } else {
        text
    }
}

/// The ticket that a buffer of version `v` holds, with the timestamps
/// already read. Versions below 4 fall back to the RPCN defaults for an
/// empty region or domain; version 4 tickets have status 0.
pub open spec fn spec_model(b: Seq<u8>, v: Version, issued_at: u64, expires_at: u64) -> TicketModel {
    let l = spec_layout(v);
    let v4 = v == Version::V4;
    let region = text_at(b, l.region as int, REGION_LEN as int);
    let domain = text_at(b, l.domain as int, DOMAIN_LEN as int);
    let emulator = spec_is_emulator(b, v);
    TicketModel {
        serial: text_at(b, l.serial as int, SERIAL_LEN as int),
        issuer_id: be32_at(b, l.issuer_id as int),
        issued_at,
        expires_at,
        account_id: be64_at(b, l.account_id as int),
        username: text_at(b, l.username as int, USERNAME_LEN as int),
        region: if v4 { region } else { or_default(region, DEFAULT_REGION@) },
        domain: if v4 { domain } else { or_default(domain, DEFAULT_DOMAIN@) },
        service_id: text_at(b, l.service_id as int, SERVICE_ID_LEN as int),
        status: if v4 { 0 } else { be32_at(b, l.status as int) },
        emulator,
        signed_data: spec_signed_range(b, v, emulator),
    }
}

/// The text of the `n`-byte field at `at`.
fn read_text(bytes: &[u8], at: usize, n: usize) -> (r: String)
    requires
        at + n <= bytes@.len(),
    ensures
        r@ == text_at(bytes@, at as int, n as int),
{
    let _len = bytes.len();
    decode_string(slice_subrange(bytes, at, at + n))
}

/// Reads the fields of a ticket of version `v` whose timestamps were
/// already read.
fn read_fields(bytes: &[u8], version: Version, issued_at: u64, expires_at: u64) -> (r: Ticket)
    requires
        212 <= bytes@.len() <= 400,
        !(version == Version::V4 && spec_is_emulator(bytes@, version)),
    ensures
        r@ == spec_model(bytes@, version, issued_at, expires_at),
{
    let l = layout(version);
    proof {
        lemma_pow256_facts();
        lemma_be_value_bound(bytes@.subrange(l.issuer_id as int, l.issuer_id + 4));
        lemma_be_value_bound(bytes@.subrange(l.account_id as int, l.account_id + 8));
        lemma_be_value_bound(bytes@.subrange(0xA4, 0xA8));
    }
    let serial = read_text(bytes, l.serial, SERIAL_LEN);
    let issuer_id = read_be(bytes, l.issuer_id, 4) as u32;
    let account_id = read_be(bytes, l.account_id, 8);
    let username = read_text(bytes, l.username, USERNAME_LEN);
    let mut region = read_text(bytes, l.region, REGION_LEN);
    let mut domain = read_text(bytes, l.domain, DOMAIN_LEN);
    let service_id = read_text(bytes, l.service_id, SERVICE_ID_LEN);
    let mut status: u32 = 0;
    match version {
        Version::V4 => {},
        _ => {
            status = read_be(bytes, l.status, 4) as u32;
            // If empty, default to RPCN defaults: `un` and `br`
            if domain.as_str().is_empty() {
                domain = DEFAULT_DOMAIN.to_owned();
            }
            if region.as_str().is_empty() {
                region = DEFAULT_REGION.to_owned();
            }
        },
    }

    let signature_id: [u8; 4] = [
        bytes[l.signature_id],
        bytes[l.signature_id + 1],
        bytes[l.signature_id + 2],
        bytes[l.signature_id + 3],
    ];
    assert(signature_id@ =~= bytes@.subrange(l.signature_id as int, l.signature_id + 4));
    let empty: Vec<u8> = Vec::new();
    let signature = Signature::from_bytes(signature_id, empty.as_slice());
    let signed_data = match signature {
        Signature::Console(_) => {
            match version {
                Version::V4 => {
                    let end = bytes.len() - (version.signature_length(&signature) + 16);
                    slice_subrange(bytes, 0x08, end)
                },
                _ => {
                    let data_length = signature.signed_data_length(version);
                    slice_subrange(bytes, 0x08, data_length)
                },
            }
        },
        Signature::Emulator(_) => slice_subrange(bytes, 0x08, 0xB0),
    };
    let signature = Signature::from_bytes(signature_id, signed_data);
    Ticket {
        serial,
        issuer_id,
        issued_at,
        expires_at,
        account_id,
        username,
        region,
        domain,
        service_id,
        status,
        signature,
    }
}


/// The PEM text of the public keys that tickets are checked against;
/// `None` where a key could not be read.
pub struct PublicKeys {
    /// The PlayStation Network key (`keys/psn.pem`).
    pub psn: Option<String>,
    /// The RPCN key (`keys/rpcn.pem`).
    pub rpcn: Option<String>,
}

/// The text of an optional key.
pub open spec fn pem_text(key: Option<String>) -> Option<Seq<char>> {
    match key {
        Some(s) => Some(s@),
        None => None,
    }
}

pub const ERR_EMPTY_BUFFER: &'static str = "Empty buffer";
pub const ERR_UNSUPPORTED_VERSION: &'static str = "Unsupported version";
pub const ERR_INVALID_LENGTH: &'static str = "Invalid buffer length";
pub const ERR_READ_KEY: &'static str = "Failed to read public key";
pub const ERR_LOAD_RPCN_KEY: &'static str = "Failed to load RPCN public key";
pub const ERR_RPCN_SIGNATURE_FORMAT: &'static str = "Invalid RPCN signature format";
pub const ERR_PSN_SIGNATURE_FORMAT: &'static str = "Invalid PSN signature format";
pub const ERR_INVALID_SIGNATURE: &'static str = "Invalid signature";
pub const ERR_LOAD_PSN_P256_KEY: &'static str = "Failed to load PSN public key (P-256)";
pub const ERR_LOAD_PSN_P192_KEY: &'static str = "Failed to load PSN public key (P-192)";
pub const ERR_UNSUPPORTED_COMBINATION: &'static str = "Unsupported ticket/signature combination for verification";

/// The outcome of checking the signature of the ticket `m` read from `b`
/// (version `v`) with the given keys: the key is loaded, the signature
/// bytes are parsed as fixed-width or, failing that, as DER, and the
/// signature is checked against the digest of the signed data. RPCN
/// signatures use P-224 and SHA-224; console signatures use P-192 and SHA-1
/// below version 4, P-256 and SHA-256 for version 4.
pub open spec fn spec_check_signature(
    m: TicketModel,
    b: Seq<u8>,
    v: Version,
    psn: Option<Seq<char>>,
    rpcn: Option<Seq<char>>,
) -> Result<(), &'static str> {
    match (if m.emulator { rpcn } else { psn }) {
        None => Err(ERR_READ_KEY),
        Some(pem) => if m.emulator {
            if v == Version::V4 {
                Err(ERR_UNSUPPORTED_COMBINATION)
            } else if !p224_pem_is_public_key(pem) {
                Err(ERR_LOAD_RPCN_KEY)
            } else {
                let sig = spec_signature_bytes(b, v, true);
                let hash = sha224(m.signed_data);
                if p224_signature_slice_ok(sig) {
                    if p224_prehash_verifies(pem, hash, sig, false) {
                        Ok(())
                    } else {
                        Err(ERR_INVALID_SIGNATURE)
                    }
                } else if p224_signature_der_ok(sig) {
                    if p224_prehash_verifies(pem, hash, sig, true) {
                        Ok(())
                    } else {
                        Err(ERR_INVALID_SIGNATURE)
                    }
                } else {
                    Err(ERR_RPCN_SIGNATURE_FORMAT)
                }
            }
        } else {
            let sig = spec_signature_bytes(b, v, false);
            if v == Version::V4 {
                if !p256_pem_is_public_key(pem) {
                    Err(ERR_LOAD_PSN_P256_KEY)
                } else {
                    let hash = sha256(m.signed_data);
                    if p256_signature_slice_ok(sig) {
                        if p256_prehash_verifies(pem, hash, sig, false) {
                            Ok(())
                        } else {
                            Err(ERR_INVALID_SIGNATURE)
                        }
                    } else if p256_signature_der_ok(sig) {
                        if p256_prehash_verifies(pem, hash, sig, true) {
                            Ok(())
                        } else {
                            Err(ERR_INVALID_SIGNATURE)
                        }
                    } else {
                        Err(ERR_PSN_SIGNATURE_FORMAT)
                    }
                }
            } else {
                if !p192_pem_is_public_key(pem) {
                    Err(ERR_LOAD_PSN_P192_KEY)
                } else {
                    let hash = sha1(m.signed_data);
                    if p192_signature_slice_ok(sig) {
                        if p192_prehash_verifies(pem, hash, sig, false) {
                            Ok(())
                        } else {
                            Err(ERR_INVALID_SIGNATURE)
                        }
                    } else if p192_signature_der_ok(sig) {
                        if p192_prehash_verifies(pem, hash, sig, true) {
                            Ok(())
                        } else {
                            Err(ERR_INVALID_SIGNATURE)
                        }
                    } else {
                        Err(ERR_PSN_SIGNATURE_FORMAT)
                    }
                }
            }
        },
    }
}

/// Checks the signature of `ticket`, read from `bytes` (version `version`).
fn check_signature(ticket: &Ticket, bytes: &[u8], version: Version, keys: &PublicKeys) -> (r: Result<(), &'static str>)
    requires
        212 <= bytes@.len() <= 400,
    ensures
        r == spec_check_signature(ticket@, bytes@, version, pem_text(keys.psn), pem_text(keys.rpcn)),
{
    let key = match &ticket.signature {
        Signature::Console(_) => &keys.psn,
        Signature::Emulator(_) => &keys.rpcn,
    };
    let ec_key_bytes: &str = match key {
        Some(pem) => pem.as_str(),
        None => return Err(ERR_READ_KEY),
    };
    let data = ticket.signature.signed_data();
    let emulator = match &ticket.signature {
        Signature::Console(_) => false,
        Signature::Emulator(_) => true,
    };
    let signature_bytes: &[u8] = if emulator {
        slice_subrange(bytes, 0xC0, bytes.len())
    } else {
        let start = bytes.len() - version.signature_length(&ticket.signature);
        slice_subrange(bytes, start, bytes.len())
    };
    match (emulator, version) {
        (true, Version::V4) => Err(ERR_UNSUPPORTED_COMBINATION),
        (true, _) => {
            let vk = match p224_key_from_pem(ec_key_bytes) {
                Some(vk) => vk,
                None => return Err(ERR_LOAD_RPCN_KEY),
            };
            let sig = match p224_signature_from_slice(signature_bytes) {
                Some(sig) => sig,
                None => match p224_signature_from_der(signature_bytes) {
                    Some(sig) => sig,
                    None => return Err(ERR_RPCN_SIGNATURE_FORMAT),
                },
            };
            let hash = sha224_digest(data);
            if p224_verify_prehash(&vk, hash.as_slice(), &sig) {
                Ok(())
            } else {
                Err(ERR_INVALID_SIGNATURE)
            }
        },
        (false, Version::V4) => {
            let vk = match p256_key_from_pem(ec_key_bytes) {
                Some(vk) => vk,
                None => return Err(ERR_LOAD_PSN_P256_KEY),
            };
            let hash = sha256_digest(data);
            let sig = match p256_signature_from_slice(signature_bytes) {
                Some(sig) => sig,
                None => match p256_signature_from_der(signature_bytes) {
                    Some(sig) => sig,
                    None => return Err(ERR_PSN_SIGNATURE_FORMAT),
                },
            };
            if p256_verify_prehash(&vk, hash.as_slice(), &sig) {
                Ok(())
            } else {
                Err(ERR_INVALID_SIGNATURE)
            }
        },
        (false, _) => {
            let vk = match p192_key_from_pem(ec_key_bytes) {
                Some(vk) => vk,
                None => return Err(ERR_LOAD_PSN_P192_KEY),
            };
            let hash = sha1_digest(data);
            let sig = match p192_signature_from_slice(signature_bytes) {
                Some(sig) => sig,
                None => match p192_signature_from_der(signature_bytes) {
                    Some(sig) => sig,
                    None => return Err(ERR_PSN_SIGNATURE_FORMAT),
                },
            };
            if p192_verify_prehash(&vk, hash.as_slice(), &sig) {
                Ok(())
            } else {
                Err(ERR_INVALID_SIGNATURE)
            }
        },
    }
}

/// The version code in the first two bytes of `b`.
pub open spec fn spec_version(b: Seq<u8>) -> Option<Version> {
    Version::spec_from_u16(be_value(b.take(2)) as u16)
}

/// The ticket parsed from `b` (before its signature is checked) and the
/// bytes afterwards, for a buffer of accepted length and version `v`.
pub open spec fn spec_parse(b: Seq<u8>, v: Version, now: Option<u64>) -> (Result<TicketModel, &'static str>, Seq<u8>) {
    let (ts, b2) = spec_timestamps(b, spec_layout(v), now);
    match ts {
        Err(e) => (Err(e), b2),
        Ok((issued_at, expires_at)) => (Ok(spec_model(b2, v, issued_at, expires_at)), b2),
    }
}

/// What `from_bytes` makes of the buffer `b` with the keys `psn` and `rpcn`
/// at the time `now`: the ticket or the error, and the buffer afterwards.
pub open spec fn spec_from_bytes(
    b: Seq<u8>,
    psn: Option<Seq<char>>,
    rpcn: Option<Seq<char>>,
    now: Option<u64>,
) -> (Result<TicketModel, &'static str>, Seq<u8>) {
    if b.len() == 0 {
        (Err(ERR_EMPTY_BUFFER), b)
    } else {
        match spec_version(b) {
            None => (Err(ERR_UNSUPPORTED_VERSION), b),
            Some(v) => if b.len() < 212 || b.len() > 400 {
                (Err(ERR_INVALID_LENGTH), b)
            } else {
                let (p, b2) = spec_parse(b, v, now);
                match p {
                    Err(e) => (Err(e), b2),
                    Ok(m) => match spec_check_signature(m, b2, v, psn, rpcn) {
                        Ok(_) => (Ok(m), b2),
                        Err(e) => (Err(e), b2),
                    },
                }
            },
        }
    }
}

/// The inputs on which parsing panics: a one-byte buffer (its version cannot
/// be read), and a version 4 ticket with an emulator signature whose
/// timestamps check (the emulator does not support version 4).
pub open spec fn spec_panics(b: Seq<u8>, now: Option<u64>) -> bool {
    ||| b.len() == 1
    ||| {
        &&& 212 <= b.len() <= 400
        &&& spec_version(b) == Some(Version::V4)
        &&& spec_parse(b, Version::V4, now).0 matches Ok(m) && m.emulator
    }
}

/// The inputs on which parsing panics at some clock reading: a one-byte
/// buffer, and a version 4 ticket with an emulator signature ID whose
/// timestamps check at some time (then they check at the latest time that
/// the clock can read).
pub open spec fn spec_may_panic(b: Seq<u8>) -> bool {
    ||| b.len() == 1
    ||| {
        &&& 212 <= b.len() <= 400
        &&& spec_version(b) == Some(Version::V4)
        &&& spec_is_emulator(b, Version::V4)
        &&& spec_parse(b, Version::V4, Some(u64::MAX)).0 is Ok
    }
}

/// Dates that check at some time check at the latest time.
proof fn lemma_dates_check_at_latest(issued_at: u64, expires_at: u64, now: Option<u64>)
    ensures
        spec_check_dates(issued_at, expires_at, now) is Ok ==> spec_check_dates(issued_at, expires_at, Some(u64::MAX)) is Ok,
{
}

/// Timestamps that check at some time check at the latest time.
proof fn lemma_timestamps_at_latest(b: Seq<u8>, v: Version, now: Option<u64>)
    ensures
        spec_parse(b, v, now).0 is Ok ==> spec_parse(b, v, Some(u64::MAX)).0 is Ok,
{
    let l = spec_layout(v);
    lemma_dates_check_at_latest(be64_at(b, l.issued_at as int), be64_at(b, l.expires_at as int), now);
    let b1 = reverse_range(b, l.issued_at as int, l.issued_at + 8);
    let b2 = reverse_range(b1, l.expires_at as int, l.expires_at + 8);
    lemma_dates_check_at_latest(be64_at(b2, l.issued_at as int), be64_at(b2, l.expires_at as int), now);
}

/// Parsing panics at a clock reading only on inputs that `spec_may_panic`
/// names.
proof fn lemma_panics_may_panic(b: Seq<u8>, now: Option<u64>)
    ensures
        spec_panics(b, now) ==> spec_may_panic(b),
{
    if 212 <= b.len() <= 400 {
        lemma_timestamps_at_latest(b, Version::V4, now);
        lemma_timestamps_keep_signature_id(b, Version::V4, now);
    }
}

/// A ticket result seen through the ticket's model.
pub open spec fn result_model(r: Result<Ticket, &'static str>) -> Result<TicketModel, &'static str> {
    match r {
        Ok(t) => Ok(t@),
        Err(e) => Err(e),
    }
}

/// Reversing the timestamp fields leaves the signature ID unchanged.
proof fn lemma_timestamps_keep_signature_id(b: Seq<u8>, v: Version, now: Option<u64>)
    requires
        212 <= b.len() <= 400,
    ensures
        spec_timestamps(b, spec_layout(v), now).1.len() == b.len(),
        spec_is_emulator(spec_timestamps(b, spec_layout(v), now).1, v) == spec_is_emulator(b, v),
{
    let l = spec_layout(v);
    let b1 = reverse_range(b, l.issued_at as int, l.issued_at + 8);
    let b2 = reverse_range(b1, l.expires_at as int, l.expires_at + 8);
    let at = l.signature_id as int;
    assert(b1.subrange(at, at + 4) =~= b.subrange(at, at + 4));
    assert(b2.subrange(at, at + 4) =~= b1.subrange(at, at + 4));
}



impl Ticket {
    /// Decode a string from a byte slice.
    pub fn decode_string(bytes: &[u8]) -> (r: String)
        ensures
            r@ == spec_decode_string(bytes@),
    {
        decode_string(bytes)
    }

    /// Make sure `issued_at` and `expires_at` make sense at the current time.
    ///
    /// - `issued_at` and `expires_at` must be non-zero.
    /// - `expires_at` must be after `issued_at`.
    /// - `issued_at` must not be in the future (with a 5 minute leeway).
    /// - `expires_at` must not be more than 1 year in the future.
    ///
    /// The dates are assumed to be in milliseconds.
    pub fn validate_dates(issued_at: u64, expires_at: u64) -> (r: Result<(), &'static str>)
        ensures
            exists|now: Option<u64>| r == spec_check_dates(issued_at, expires_at, now),
    {
        crate::dates::validate_dates(issued_at, expires_at)
    }

    /// Deserialize a ticket from a byte slice at the time `now` (seconds
    /// since the UNIX epoch, `None` if the clock reads earlier than the
    /// epoch), checking its dates and its signature against `keys`.
    ///
    /// An RPCN (emulator) signature is verified with the RPCN key over the
    /// SHA-224 digest of the user data section (NIST P-224); a console
    /// signature with the PSN key over the SHA-1 (P-192, versions 2 to 3)
    /// or SHA-256 (P-256, version 4) digest of its signed data.
    ///
    /// `bytes` is mutable, as the timestamps are byte-swapped in place when
    /// they only make sense in the other byte order.
    pub fn from_bytes_at(bytes: &mut [u8], keys: &PublicKeys, now: Option<u64>) -> (r: Result<Self, &'static str>)
        requires
            !spec_panics(old(bytes)@, now),
        ensures
            (result_model(r), final(bytes)@) == spec_from_bytes(
                old(bytes)@,
                pem_text(keys.psn),
                pem_text(keys.rpcn),
                now,
            ),
    {
        let ghost b0 = bytes@;
        let len = bytes.len();
        if len == 0 {
            return Err(ERR_EMPTY_BUFFER);
        }
        proof {
            assert(b0.take(2) =~= b0.subrange(0, 2));
        }
        let code = read_be(bytes, 0, 2);
        proof {
            lemma_be_value_bound(b0.subrange(0, 2));
            lemma_pow256_facts();
        }
        let version = match Version::from_u16(code as u16) {
            Some(v) => v,
            None => return Err(ERR_UNSUPPORTED_VERSION),
        };
        if len < 212 || len > 400 {
            return Err(ERR_INVALID_LENGTH);
        }
        let l = layout(version);
        let (issued_at, expires_at) = match parse_timestamps(bytes, &l, now) {
            Ok(ts) => ts,
            Err(e) => return Err(e),
        };
        proof {
            lemma_timestamps_keep_signature_id(b0, version, now);
        }
        let ticket = read_fields(bytes, version, issued_at, expires_at);
        match check_signature(&ticket, bytes, version, keys) {
            Ok(_) => Ok(ticket),
            Err(e) => Err(e),
        }
    }

    /// Deserialize a ticket from a byte slice at the current time.
    /// This will also verify the ticket's signature against `keys`, as
    /// `from_bytes_at` does.
    ///
    /// `bytes` must be mutable, as the function may modify it
    /// to fix endianness issues with the timestamps.
    pub fn from_bytes(bytes: &mut [u8], keys: &PublicKeys) -> (r: Result<Self, &'static str>)
        requires
            !spec_may_panic(old(bytes)@),
        ensures
            exists|now: Option<u64>|
                (result_model(r), final(bytes)@) == spec_from_bytes(
                    old(bytes)@,
                    pem_text(keys.psn),
                    pem_text(keys.rpcn),
                    now,
                ),
    {
        let now = crate::dates::current_unix_time();
        proof {
            lemma_panics_may_panic(old(bytes)@, now);
        }
        Self::from_bytes_at(bytes, keys, now)
    }
}


/// An item with type id `id` and payload `payload`: two big-endian `u16`s
/// (id, payload length), then the payload.
pub open spec fn item_bytes(id: nat, payload: Seq<u8>) -> Seq<u8> {
    be_bytes(id, 2) + be_bytes(payload.len(), 2) + payload
}

/// The UTF-8 bytes of `text` cut or zero-padded to `n` bytes.
pub open spec fn text_field(text: Seq<char>, n: nat) -> Seq<u8> {
    fit(encode_utf8(text), n)
}

/// The items of the user data section of a serialized ticket.
pub open spec fn spec_user_items(t: TicketModel) -> Seq<u8> {
    item_bytes(8, text_field(t.serial, 0x14))
        + item_bytes(1, be_bytes(t.issuer_id as nat, 4))
        + item_bytes(7, be_bytes(t.issued_at as nat, 8))
        + item_bytes(7, be_bytes(t.expires_at as nat, 8))
        + item_bytes(2, be_bytes(t.account_id as nat, 8))
        + item_bytes(4, text_field(t.username, 0x20))
        + item_bytes(8, text_field(t.region, 4))
        + item_bytes(4, text_field(t.domain, 4))
        + item_bytes(8, text_field(t.service_id, 0x18))
        + item_bytes(1, be_bytes(t.status as nat, 4))
        + item_bytes(0, Seq::empty())
        + item_bytes(0, Seq::empty())
}

/// The user data section (blob 0) of a serialized ticket.
pub open spec fn spec_user_blob(t: TicketModel) -> Seq<u8> {
    item_bytes(0x3000, spec_user_items(t))
}

/// The signature section (blob 2) of a serialized ticket: the `RPCN` ID
/// and the signature bytes.
pub open spec fn spec_signature_blob(signature: Seq<u8>) -> Seq<u8> {
    item_bytes(0x3002, item_bytes(8, rpcn_id()) + item_bytes(8, signature))
}

/// The serialized ticket: the version code in the upper half of a
/// big-endian `u32`, the size of the two sections as a big-endian `u32`,
/// then the user data section and the signature section.
pub open spec fn spec_to_bytes(t: TicketModel, v: Version, signature: Seq<u8>) -> Seq<u8> {
    let user = spec_user_blob(t);
    let sig = spec_signature_blob(signature);
    be_bytes(v.spec_code() as nat * 0x1_0000, 4) + be_bytes((user.len() + sig.len()) as nat, 4) + user + sig
}

/// The longest signature that fits the `u16` section lengths.
pub const MAX_SIGNATURE_LEN: usize = 65351;

/// 56 zero bytes: the signature of an unsigned ticket.
pub open spec fn unsigned_signature() -> Seq<u8> {
    fit(Seq::empty(), 56)
}

/// Appends the item `d`, whose bytes are `item_bytes(id, payload)`, to `items`.
fn push_item(items: &mut Vec<TicketData>, d: TicketData, Ghost(id): Ghost<nat>, Ghost(payload): Ghost<Seq<u8>>)
    requires
        d.len_fits(),
        d.spec_len() == payload.len(),
        d.spec_encode() == item_bytes(id, payload),
    ensures
        final(items)@ == old(items)@.push(d),
        TicketData::encode_all(final(items)@) == TicketData::encode_all(old(items)@) + item_bytes(id, payload),
        TicketData::sum_len(final(items)@) == TicketData::sum_len(old(items)@) + payload.len() + 4,
        TicketData::all_len_fit(final(items)@) == TicketData::all_len_fit(old(items)@),
        TicketData::encode_all(final(items)@).len() - TicketData::sum_len(final(items)@)
            == TicketData::encode_all(old(items)@).len() - TicketData::sum_len(old(items)@),
{
    let ghost s = items@;
    items.push(d);
    assert(items@.drop_last() =~= s);
    proof {
        lemma_item_len(id, payload);
    }
}

/// A binary item of `bytes`.
fn binary_item(bytes: Vec<u8>) -> (r: TicketData)
    requires
        bytes@.len() < 0x1_0000,
    ensures
        r.len_fits(),
        r.spec_len() == bytes@.len(),
        r.spec_encode() == item_bytes(8, bytes@),
{
    let r = TicketData::Binary(bytes);
    assert(r.spec_encode() =~= item_bytes(8, bytes@));
    r
}

/// A byte-string item of `bytes`.
fn bstring_item(bytes: Vec<u8>) -> (r: TicketData)
    requires
        bytes@.len() < 0x1_0000,
    ensures
        r.len_fits(),
        r.spec_len() == bytes@.len(),
        r.spec_encode() == item_bytes(4, bytes@),
{
    let r = TicketData::BString(bytes);
    assert(r.spec_encode() =~= item_bytes(4, bytes@));
    r
}

/// A `u32` item of `v`.
fn u32_item(v: u32) -> (r: TicketData)
    ensures
        r.len_fits(),
        r.spec_len() == be_bytes(v as nat, 4).len(),
        r.spec_encode() == item_bytes(1, be_bytes(v as nat, 4)),
{
    proof {
        lemma_be_bytes_len(v as nat, 4);
    }
    let r = TicketData::U32(v);
    assert(r.spec_encode() =~= item_bytes(1, be_bytes(v as nat, 4)));
    r
}

/// A `u64` item of `v`.
fn u64_item(v: u64) -> (r: TicketData)
    ensures
        r.len_fits(),
        r.spec_len() == be_bytes(v as nat, 8).len(),
        r.spec_encode() == item_bytes(2, be_bytes(v as nat, 8)),
{
    proof {
        lemma_be_bytes_len(v as nat, 8);
    }
    let r = TicketData::U64(v);
    assert(r.spec_encode() =~= item_bytes(2, be_bytes(v as nat, 8)));
    r
}

/// A time item of `v`.
fn time_item(v: u64) -> (r: TicketData)
    ensures
        r.len_fits(),
        r.spec_len() == be_bytes(v as nat, 8).len(),
        r.spec_encode() == item_bytes(7, be_bytes(v as nat, 8)),
{
    proof {
        lemma_be_bytes_len(v as nat, 8);
    }
    let r = TicketData::Time(v);
    assert(r.spec_encode() =~= item_bytes(7, be_bytes(v as nat, 8)));
    r
}

/// An empty item.
fn empty_item() -> (r: TicketData)
    ensures
        r.len_fits(),
        r.spec_len() == 0,
        r.spec_encode() == item_bytes(0, Seq::empty()),
{
    let r = TicketData::Empty();
    assert(r.spec_encode() =~= item_bytes(0, Seq::empty()));
    r
}

/// The text `s` as a byte field of `n` bytes.
fn text_bytes(s: &String, n: usize) -> (r: Vec<u8>)
    ensures
        r@ == text_field(s@, n as nat),
        r@.len() == n,
{
    fit_bytes(s.as_str().as_bytes(), n)
}

/// A blob item of `items`.
fn blob_item(id: u8, items: Vec<TicketData>) -> (r: TicketData)
    requires
        TicketData::all_len_fit(items@),
        TicketData::sum_len(items@) <= 0xFFFF,
        TicketData::encode_all(items@).len() == TicketData::sum_len(items@),
    ensures
        r.len_fits(),
        r.spec_len() == TicketData::sum_len(items@),
        r.spec_encode() == item_bytes((0x3000 + id) as nat, TicketData::encode_all(items@)),
        r.spec_encode() == be_bytes((0x3000 + id) as nat, 2) + be_bytes(TicketData::sum_len(items@) as nat, 2)
            + TicketData::encode_all(items@),
{
    let ghost s = items@;
    let r = TicketData::Blob(id, items);
    assert(r.spec_encode() =~= item_bytes((0x3000 + id) as nat, TicketData::encode_all(s)));
    r
}

impl Ticket {
    /// The user data section of the serialized ticket.
    fn user_blob(&self) -> (r: TicketData)
        ensures
            r.len_fits(),
            r.spec_len() == 0xA4,
            r.spec_encode() == spec_user_blob(self@),
    {
        let mut items: Vec<TicketData> = Vec::new();
        push_item(&mut items, binary_item(text_bytes(&self.serial, 0x14)), Ghost(8), Ghost(text_field(self@.serial, 0x14)));
        push_item(&mut items, u32_item(self.issuer_id), Ghost(1), Ghost(be_bytes(self.issuer_id as nat, 4)));
        push_item(&mut items, time_item(self.issued_at), Ghost(7), Ghost(be_bytes(self.issued_at as nat, 8)));
        push_item(&mut items, time_item(self.expires_at), Ghost(7), Ghost(be_bytes(self.expires_at as nat, 8)));
        push_item(&mut items, u64_item(self.account_id), Ghost(2), Ghost(be_bytes(self.account_id as nat, 8)));
        push_item(&mut items, bstring_item(text_bytes(&self.username, 0x20)), Ghost(4), Ghost(text_field(self@.username, 0x20)));
        push_item(&mut items, binary_item(text_bytes(&self.region, 4)), Ghost(8), Ghost(text_field(self@.region, 4)));
        push_item(&mut items, bstring_item(text_bytes(&self.domain, 4)), Ghost(4), Ghost(text_field(self@.domain, 4)));
        push_item(&mut items, binary_item(text_bytes(&self.service_id, 0x18)), Ghost(8), Ghost(text_field(self@.service_id, 0x18)));
        push_item(&mut items, u32_item(self.status), Ghost(1), Ghost(be_bytes(self.status as nat, 4)));
        push_item(&mut items, empty_item(), Ghost(0), Ghost(Seq::empty()));
        push_item(&mut items, empty_item(), Ghost(0), Ghost(Seq::empty()));
        proof {
            lemma_user_blob_len(self@);
            lemma_be_bytes_len(self.issuer_id as nat, 4);
            lemma_be_bytes_len(self.issued_at as nat, 8);
            lemma_be_bytes_len(self.expires_at as nat, 8);
            lemma_be_bytes_len(self.account_id as nat, 8);
            lemma_be_bytes_len(self.status as nat, 4);
            assert(TicketData::encode_all(Seq::<TicketData>::empty()) =~= Seq::<u8>::empty());
        }
        assert(TicketData::encode_all(items@) =~= spec_user_items(self@));
        blob_item(0, items)
    }

    /// Serialize the ticket with the user data section `user_blob`, whose
    /// bytes are `item_bytes(0x3000, user_items)`, and the signature bytes
    /// `signature`.
    fn assemble(version: Version, user_blob: &TicketData, Ghost(user_items): Ghost<Seq<u8>>, signature: Vec<u8>) -> (r: Vec<u8>)
        requires
            user_blob.len_fits(),
            user_blob.spec_len() == user_items.len(),
            user_blob.spec_encode() == item_bytes(0x3000, user_items),
            user_items.len() <= 0xA4,
            signature@.len() <= MAX_SIGNATURE_LEN,
        ensures
            r@ == be_bytes(version.spec_code() as nat * 0x1_0000, 4)
                + be_bytes((item_bytes(0x3000, user_items).len() + spec_signature_blob(signature@).len()) as nat, 4)
                + item_bytes(0x3000, user_items) + spec_signature_blob(signature@),
    {
        let ghost sig = signature@;
        let mut items: Vec<TicketData> = Vec::new();
        let mut id: Vec<u8> = Vec::new();
        id.push(0x52);
        id.push(0x50);
        id.push(0x43);
        id.push(0x4E);
        assert(id@ =~= rpcn_id());
        push_item(&mut items, binary_item(id), Ghost(8), Ghost(rpcn_id()));
        push_item(&mut items, binary_item(signature), Ghost(8), Ghost(sig));
        assert(TicketData::encode_all(Seq::<TicketData>::empty()) =~= Seq::<u8>::empty());
        assert(TicketData::encode_all(items@) =~= item_bytes(8, rpcn_id()) + item_bytes(8, sig));
        let signature_blob = blob_item(2, items);
        proof {
            lemma_item_len(0x3000, user_items);
            lemma_item_len(8, rpcn_id());
            lemma_item_len(8, sig);
            lemma_item_len(0x3002, item_bytes(8, rpcn_id()) + item_bytes(8, sig));
        }
        let mut ticket_blob: Vec<u8> = Vec::new();
        push_be(&mut ticket_blob, version.code() as u64 * 0x1_0000, 4);
        let size: u16 = (user_blob.len() + 4) + (signature_blob.len() + 4);
        push_be(&mut ticket_blob, size as u64, 4);
        user_blob.write(&mut ticket_blob);
        signature_blob.write(&mut ticket_blob);
        ticket_blob
    }

    /// Serialize the ticket to bytes with the given signature bytes in its
    /// signature section.
    pub fn to_bytes_with_signature(&self, version: Version, signature: Vec<u8>) -> (r: Vec<u8>)
        requires
            signature@.len() <= MAX_SIGNATURE_LEN,
        ensures
            r@ == spec_to_bytes(self@, version, signature@),
    {
        let user_blob = self.user_blob();
        proof {
            lemma_user_blob_len(self@);
        }
        Self::assemble(version, &user_blob, Ghost(spec_user_items(self@)), signature)
    }

    /// Serialize the ticket to bytes and optionally sign it.
    ///
    /// With a key, the user data section is hashed with SHA-224 and signed;
    /// the 56 signature bytes go into the signature section. Without a key,
    /// or if signing fails, the signature section holds 56 zero bytes.
    pub fn to_bytes(&self, version: Version, signing_key: Option<&RpcnSigningKey>) -> (r: Vec<u8>)
        ensures
            r@ == spec_to_bytes(self@, version, spec_signature_section(self@, key_secret(signing_key))),
            r@.len() == 248,
    {
        let user_blob = self.user_blob();
        proof {
            lemma_user_blob_len(self@);
        }
        let empty: Vec<u8> = Vec::new();
        // A P-224 signature is 56 bytes
        let mut signature_bytes = fit_bytes(empty.as_slice(), 56);
        match signing_key {
            Some(key) => {
                let mut user_rawdata: Vec<u8> = Vec::new();
                user_blob.write(&mut user_rawdata);
                assert(user_rawdata@ =~= spec_user_blob(self@));
                let hash = sha224_digest(user_rawdata.as_slice());
                match p224_sign_prehash(key, hash.as_slice()) {
                    Some(sig) => {
                        signature_bytes = sig;
                    },
                    None => {},
                }
            },
            None => {},
        }
        let ghost sig = signature_bytes@;
        assert(sig == spec_signature_section(self@, key_secret(signing_key)));
        let r = Self::assemble(version, &user_blob, Ghost(spec_user_items(self@)), signature_bytes);
        assert(r@ == spec_to_bytes(self@, version, sig));
        proof {
            crate::laws::lemma_to_bytes_layout(self@, version, sig);
        }
        r
    }

    /// Serialize the ticket and encode it as a base64 string.
    pub fn to_base64(&self, version: Version, signing_key: Option<&RpcnSigningKey>) -> (r: String)
        ensures
            r@ == base64_standard_encode(
                spec_to_bytes(self@, version, spec_signature_section(self@, key_secret(signing_key))),
            ),
            base64_standard_decode(r@) == Some(
                spec_to_bytes(self@, version, spec_signature_section(self@, key_secret(signing_key))),
            ),
            r@.len() == 332,
    {
        let bytes = self.to_bytes(version, signing_key);
        base64_encode(bytes.as_slice())
    }
}

/// The secret scalar of an optional signing key.
pub open spec fn key_secret(key: Option<&RpcnSigningKey>) -> Option<Seq<u8>> {
    match key {
        Some(k) => Some(k.secret()),
        None => None,
    }
}

/// The signature section that `to_bytes` writes for `t`: with the key of
/// secret scalar `secret`, the signature over the SHA-224 digest of the
/// user data section; without a key, or where signing fails, 56 zero bytes.
pub open spec fn spec_signature_section(t: TicketModel, secret: Option<Seq<u8>>) -> Seq<u8> {
    match secret {
        None => unsigned_signature(),
        Some(secret) => match p224_sign(secret, sha224(spec_user_blob(t))) {
            Some(sig) => sig,
            None => unsigned_signature(),
        },
    }
}

/// The user data section is 0xA4 bytes of items behind its 4-byte header.
pub proof fn lemma_user_blob_len(t: TicketModel)
    ensures
        spec_user_items(t).len() == 0xA4,
        spec_user_blob(t).len() == 0xA8,
{
    lemma_be_bytes_len(t.issuer_id as nat, 4);
    lemma_be_bytes_len(t.issued_at as nat, 8);
    lemma_be_bytes_len(t.expires_at as nat, 8);
    lemma_be_bytes_len(t.account_id as nat, 8);
    lemma_be_bytes_len(t.status as nat, 4);
    assert forall|id: nat, p: Seq<u8>| #[trigger] item_bytes(id, p).len() == p.len() + 4 by {
        lemma_item_len(id, p);
    }
}

/// An item is its payload behind a 4-byte header.
pub proof fn lemma_item_len(id: nat, payload: Seq<u8>)
    ensures
        item_bytes(id, payload).len() == payload.len() + 4,
{
    lemma_be_bytes_len(id, 2);
    lemma_be_bytes_len(payload.len(), 2);
}


impl Default for Ticket {
    /// An empty ticket: empty texts, zero numbers, an empty emulator signature.
    fn default() -> (r: Self)
        ensures
            r@.serial.len() == 0 && r@.username.len() == 0 && r@.region.len() == 0,
            r@.domain.len() == 0 && r@.service_id.len() == 0,
            r.issuer_id == 0 && r.issued_at == 0 && r.expires_at == 0 && r.account_id == 0 && r.status == 0,
            r@.emulator && r@.signed_data.len() == 0,
    {
        Ticket {
            serial: String::new(),
            issuer_id: 0,
            issued_at: 0,
            expires_at: 0,
            account_id: 0,
            username: String::new(),
            region: String::new(),
            domain: String::new(),
            service_id: String::new(),
            status: 0,
            signature: Signature::default(),
        }
    }
}

/// Why a base64-encoded ticket was refused.
#[derive(Debug)]
pub enum TicketDecodeError {
    /// The text is not standard, padded base64.
    Base64(base64::DecodeError),
    /// The decoded ticket was refused, for the reason given.
    Ticket(&'static str),
    /// The decoded bytes are a buffer that parsing does not handle at the
    /// current time: a single byte, or a version 4 ticket with an emulator
    /// signature ID whose timestamps check.
    Unsupported,
}

/// A decoding result seen through the ticket's model: `None` for the
/// errors that come before parsing.
pub open spec fn decode_result_model(r: Result<Ticket, TicketDecodeError>) -> Option<Result<TicketModel, &'static str>> {
    match r {
        Ok(t) => Some(Ok(t@)),
        Err(TicketDecodeError::Ticket(e)) => Some(Err(e)),
        Err(_) => None,
    }
}

/// What decoding the bytes `b` at the time `now` gives: `Unsupported` where
/// parsing panics, else what parsing gives.
pub open spec fn decoded_outcome(r: Result<Ticket, TicketDecodeError>, b: Seq<u8>, keys: &PublicKeys, now: Option<u64>) -> bool {
    if spec_panics(b, now) {
        r matches Err(TicketDecodeError::Unsupported)
    } else {
        decode_result_model(r) == Some(spec_from_bytes(b, pem_text(keys.psn), pem_text(keys.rpcn), now).0)
    }
}

impl Ticket {
    /// Whether parsing `bytes` at the time `now` panics: on a single byte,
    /// and on a version 4 ticket with an emulator signature ID whose
    /// timestamps check at `now` (the emulator does not support version 4).
    pub fn parse_panics_at(bytes: &[u8], now: Option<u64>) -> (r: bool)
        ensures
            r == spec_panics(bytes@, now),
    {
        let len = bytes.len();
        if len == 1 {
            return true;
        }
        if len < 212 || len > 400 {
            return false;
        }
        proof {
            assert(bytes@.take(2) =~= bytes@.subrange(0, 2));
            lemma_be_value_bound(bytes@.subrange(0, 2));
            lemma_pow256_facts();
            lemma_timestamps_keep_signature_id(bytes@, Version::V4, now);
        }
        let code = read_be(bytes, 0, 2);
        match Version::from_u16(code as u16) {
            Some(Version::V4) => {
                let emulator = bytes[0xC0] == 0x52 && bytes[0xC1] == 0x50 && bytes[0xC2] == 0x43 && bytes[0xC3] == 0x4E;
                proof {
                    let id = bytes@.subrange(0xC0, 0xC4);
                    assert(emulator ==> id =~= rpcn_id());
                    assert(id == rpcn_id() ==> emulator) by {
                        if id == rpcn_id() {
                            assert(id[0] == 0x52 && id[1] == 0x50 && id[2] == 0x43 && id[3] == 0x4E);
                        }
                    }
                }
                if !emulator {
                    return false;
                }
                Self::timestamps_check_at(bytes, now)
            },
            _ => false,
        }
    }

    /// Whether the version 4 timestamps of `bytes` check at `now`, in either
    /// byte order.
    fn timestamps_check_at(bytes: &[u8], now: Option<u64>) -> (r: bool)
        requires
            212 <= bytes@.len() <= 400,
        ensures
            r == (spec_parse(bytes@, Version::V4, now).0 is Ok),
    {
        let ghost b = bytes@;
        let l = layout(Version::V4);
        proof {
            lemma_pow256_facts();
            lemma_be_value_bound(b.subrange(l.issued_at as int, l.issued_at + 8));
            lemma_be_value_bound(b.subrange(l.expires_at as int, l.expires_at + 8));
        }
        let issued_at = read_be(bytes, l.issued_at, 8);
        let expires_at = read_be(bytes, l.expires_at, 8);
        if validate_dates_at(issued_at, expires_at, now).is_ok() {
            return true;
        }
        let issued_le = read_le64(bytes, l.issued_at);
        let expires_le = read_le64(bytes, l.expires_at);
        proof {
            let b1 = reverse_range(b, l.issued_at as int, l.issued_at + 8);
            let b2 = reverse_range(b1, l.expires_at as int, l.expires_at + 8);
            assert(b2.subrange(l.issued_at as int, l.issued_at + 8) =~= b.subrange(l.issued_at as int, l.issued_at + 8).reverse());
            assert(b2.subrange(l.expires_at as int, l.expires_at + 8) =~= b.subrange(l.expires_at as int, l.expires_at + 8).reverse());
        }
        validate_dates_at(issued_le, expires_le, now).is_ok()
    }

    /// Deserialize a ticket from its standard base64 encoding, checking its
    /// dates at the current time and its signature against `keys`.
    pub fn from_base64(text: &str, keys: &PublicKeys) -> (r: Result<Self, TicketDecodeError>)
        ensures
            match base64_standard_decode(text@) {
                None => r matches Err(TicketDecodeError::Base64(_)),
                Some(b) => exists|now: Option<u64>| #[trigger] decoded_outcome(r, b, keys, now),
            },
    {
        let mut decoded = match base64_decode(text) {
            Ok(bytes) => bytes,
            Err(e) => return Err(TicketDecodeError::Base64(e)),
        };
        let ghost b = decoded@;
        let now = crate::dates::current_unix_time();
        if Self::parse_panics_at(decoded.as_slice(), now) {
            let r = Err(TicketDecodeError::Unsupported);
            assert(base64_standard_decode(text@) matches Some(bb) && decoded_outcome(r, bb, keys, now));
            return r;
        }
        let r = match Self::from_bytes_at(decoded.as_mut_slice(), keys, now) {
            Ok(ticket) => Ok(ticket),
            Err(e) => Err(TicketDecodeError::Ticket(e)),
        };
        assert(base64_standard_decode(text@) matches Some(bb) && decoded_outcome(r, bb, keys, now));
        r
    }
}

} // verus!
