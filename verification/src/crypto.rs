//! The calls into the ECDSA, SHA-1, SHA-2 and base64 crates.
//!
//! Console (PSN) tickets are verified with ECDSA over NIST P-192 and SHA-1
//! (versions 2 to 3) or NIST P-256 and SHA-256 (version 4).
//!
//! RPCN tickets are signed and verified with ECDSA over NIST P-224
//! (`p224::NistP224`). RPCN itself signs with the Koblitz curve secp224k1,
//! which the `p224` crate does not provide, so a real RPCN public key does
//! not load here and real RPCN tickets fail with "Failed to load RPCN public
//! key"; tickets signed and checked with P-224 keys go through.
//!
//! Keys and signatures are held in opaque structs of this module. Each
//! records, as ghost state, the bytes or the PEM text it was made from, and
//! only the functions of this module set that record.

use vstd::prelude::*;
use ecdsa::elliptic_curve::pkcs8::DecodePublicKey;
use ecdsa::signature::hazmat::{PrehashSigner, PrehashVerifier};
use base64::Engine;
use sha2::Digest;

use crate::bytes::be_value;

verus! {

/// A P-224 ECDSA verifying key (`p224::ecdsa::VerifyingKey`).
#[verifier::external_body]
pub(crate) struct P224VerifyingKey {
    key: p224::ecdsa::VerifyingKey,
}

/// A P-224 ECDSA signature (`p224::ecdsa::Signature`).
#[verifier::external_body]
pub(crate) struct P224Signature {
    sig: p224::ecdsa::Signature,
}

/// A P-224 ECDSA signing key (`p224::ecdsa::SigningKey`).
#[verifier::external_body]
struct P224SigningKey {
    key: p224::ecdsa::SigningKey,
}

/// The key that signs RPCN tickets, together with the secret scalar it was
/// made from.
pub struct RpcnSigningKey {
    key: P224SigningKey,
    secret: Ghost<Seq<u8>>,
}

impl RpcnSigningKey {
    /// The big-endian secret scalar the key was made from.
    pub closed spec fn secret(&self) -> Seq<u8> {
        self.secret@
    }

    /// The signing key whose secret scalar is `secret` (big-endian, 24 to 28
    /// bytes), or `None` where that is not a valid P-224 secret (zero, or
    /// not below the group order).
    pub fn from_slice(secret: &[u8]) -> (r: Option<Self>)
        ensures
            r is Some == p224_secret_ok(secret@),
            r matches Some(k) ==> k.secret() == secret@,
    {
        p224_signing_key_from_slice(secret)
    }
}

/// A verifying key together with the PEM text it was loaded from.
pub(crate) struct LoadedKey {
    key: P224VerifyingKey,
    pem: Ghost<Seq<char>>,
}

impl LoadedKey {
    /// The PEM text the key was loaded from.
    pub(crate) closed spec fn pem(&self) -> Seq<char> {
        self.pem@
    }
}

/// A signature together with the bytes it was parsed from, and whether it
/// was parsed as ASN.1 DER (else as fixed-width `r || s`).
pub(crate) struct ParsedSignature {
    sig: P224Signature,
    encoded: Ghost<Seq<u8>>,
    der: Ghost<bool>,
}

impl ParsedSignature {
    /// The bytes the signature was parsed from.
    pub(crate) closed spec fn encoded(&self) -> Seq<u8> {
        self.encoded@
    }

    /// Whether the signature was parsed as ASN.1 DER.
    pub(crate) closed spec fn is_der(&self) -> bool {
        self.der@
    }
}

/// The order of the NIST P-224 group.
pub open spec fn p224_order() -> nat {
    0xffffffffffffffffffffffffffff16a2e0b8f03e13dd29455c5c2a3dnat
}

/// What `SigningKey::<NistP224>::from_slice` accepts: 24 to 28 big-endian
/// bytes (shorter ones are zero-extended on the left) of a scalar in
/// `1..n`, `n` the group order.
pub open spec fn p224_secret_ok(secret: Seq<u8>) -> bool {
    &&& 24 <= secret.len() <= 28
    &&& 0 < be_value(secret) < p224_order()
}

/// What `Signature::<NistP224>::from_slice` accepts: exactly 56 bytes, both
/// 28-byte halves (`r`, `s`) big-endian scalars in `1..n`, `n` the group
/// order.
pub open spec fn p224_signature_slice_ok(bytes: Seq<u8>) -> bool {
    &&& bytes.len() == 56
    &&& 0 < be_value(bytes.take(28)) < p224_order()
    &&& 0 < be_value(bytes.skip(28)) < p224_order()
}

/// The fixed-width signature (`Signature::to_bytes`) that `sign_prehash`
/// makes with the P-224 key of the secret scalar `secret` over `prehash`,
/// or `None` where it fails. Signing is deterministic (RFC 6979).
pub uninterp spec fn p224_sign(secret: Seq<u8>, prehash: Seq<u8>) -> Option<Seq<u8>>;

/// Whether `VerifyingKey::<NistP224>::from_public_key_pem` accepts `pem`.
pub uninterp spec fn p224_pem_is_public_key(pem: Seq<char>) -> bool;

/// Whether `Signature::<NistP224>::from_der` accepts `bytes`.
pub uninterp spec fn p224_signature_der_ok(bytes: Seq<u8>) -> bool;

/// Whether `verify_prehash` succeeds for the key loaded from `pem`, the
/// prehash `prehash` and the signature parsed from `sig` (as DER if `der`).
pub uninterp spec fn p224_prehash_verifies(pem: Seq<char>, prehash: Seq<u8>, sig: Seq<u8>, der: bool) -> bool;

/// The SHA-224 digest of `data`.
pub uninterp spec fn sha224(data: Seq<u8>) -> Seq<u8>;

/// Whether `VerifyingKey::<NistP256>::from_public_key_pem` accepts `pem`.
pub uninterp spec fn p256_pem_is_public_key(pem: Seq<char>) -> bool;

/// Whether `VerifyingKey::<NistP192>::from_public_key_pem` accepts `pem`.
pub uninterp spec fn p192_pem_is_public_key(pem: Seq<char>) -> bool;

/// A P-192 ECDSA verifying key (`p192::ecdsa::VerifyingKey`).
#[verifier::external_body]
pub(crate) struct P192VerifyingKey {
    key: p192::ecdsa::VerifyingKey,
}

/// A P-192 ECDSA signature (`p192::ecdsa::Signature`).
#[verifier::external_body]
pub(crate) struct P192Signature {
    sig: p192::ecdsa::Signature,
}

/// A P-256 ECDSA verifying key (`p256::ecdsa::VerifyingKey`).
#[verifier::external_body]
pub(crate) struct P256VerifyingKey {
    key: p256::ecdsa::VerifyingKey,
}

/// A P-256 ECDSA signature (`p256::ecdsa::Signature`).
#[verifier::external_body]
pub(crate) struct P256Signature {
    sig: p256::ecdsa::Signature,
}

/// A P-192 verifying key together with the PEM text it was loaded from.
pub(crate) struct LoadedP192Key {
    key: P192VerifyingKey,
    pem: Ghost<Seq<char>>,
}

impl LoadedP192Key {
    /// The PEM text the key was loaded from.
    pub(crate) closed spec fn pem(&self) -> Seq<char> {
        self.pem@
    }
}

/// A P-256 verifying key together with the PEM text it was loaded from.
pub(crate) struct LoadedP256Key {
    key: P256VerifyingKey,
    pem: Ghost<Seq<char>>,
}

impl LoadedP256Key {
    /// The PEM text the key was loaded from.
    pub(crate) closed spec fn pem(&self) -> Seq<char> {
        self.pem@
    }
}

/// A P-192 signature with the bytes it was parsed from and whether it was
/// parsed as ASN.1 DER.
pub(crate) struct ParsedP192Signature {
    sig: P192Signature,
    encoded: Ghost<Seq<u8>>,
    der: Ghost<bool>,
}

impl ParsedP192Signature {
    /// The bytes the signature was parsed from.
    pub(crate) closed spec fn encoded(&self) -> Seq<u8> {
        self.encoded@
    }

    /// Whether the signature was parsed as ASN.1 DER.
    pub(crate) closed spec fn is_der(&self) -> bool {
        self.der@
    }
}

/// A P-256 signature with the bytes it was parsed from and whether it was
/// parsed as ASN.1 DER.
pub(crate) struct ParsedP256Signature {
    sig: P256Signature,
    encoded: Ghost<Seq<u8>>,
    der: Ghost<bool>,
}

impl ParsedP256Signature {
    /// The bytes the signature was parsed from.
    pub(crate) closed spec fn encoded(&self) -> Seq<u8> {
        self.encoded@
    }

    /// Whether the signature was parsed as ASN.1 DER.
    pub(crate) closed spec fn is_der(&self) -> bool {
        self.der@
    }
}

/// The order of the NIST P-192 group.
pub open spec fn p192_order() -> nat {
    0xffffffffffffffffffffffff99def836146bc9b1b4d22831nat
}

/// The order of the NIST P-256 group.
pub open spec fn p256_order() -> nat {
    0xffffffff00000000ffffffffffffffffbce6faada7179e84f3b9cac2fc632551nat
}

/// What `Signature::<NistP192>::from_slice` accepts: exactly 48 bytes, both
/// 24-byte halves big-endian scalars in `1..n`, `n` the group order.
pub open spec fn p192_signature_slice_ok(bytes: Seq<u8>) -> bool {
    &&& bytes.len() == 48
    &&& 0 < be_value(bytes.take(24)) < p192_order()
    &&& 0 < be_value(bytes.skip(24)) < p192_order()
}

/// What `Signature::<NistP256>::from_slice` accepts: exactly 64 bytes, both
/// 32-byte halves big-endian scalars in `1..n`, `n` the group order.
pub open spec fn p256_signature_slice_ok(bytes: Seq<u8>) -> bool {
    &&& bytes.len() == 64
    &&& 0 < be_value(bytes.take(32)) < p256_order()
    &&& 0 < be_value(bytes.skip(32)) < p256_order()
}

/// Whether `Signature::<NistP192>::from_der` accepts `bytes`.
pub uninterp spec fn p192_signature_der_ok(bytes: Seq<u8>) -> bool;

/// Whether `Signature::<NistP256>::from_der` accepts `bytes`.
pub uninterp spec fn p256_signature_der_ok(bytes: Seq<u8>) -> bool;

/// Whether `verify_prehash` succeeds for the P-192 key loaded from `pem`,
/// the prehash `prehash` and the signature parsed from `sig` (as DER if
/// `der`).
pub uninterp spec fn p192_prehash_verifies(pem: Seq<char>, prehash: Seq<u8>, sig: Seq<u8>, der: bool) -> bool;

/// Whether `verify_prehash` succeeds for the P-256 key loaded from `pem`,
/// the prehash `prehash` and the signature parsed from `sig` (as DER if
/// `der`).
pub uninterp spec fn p256_prehash_verifies(pem: Seq<char>, prehash: Seq<u8>, sig: Seq<u8>, der: bool) -> bool;

/// The SHA-1 digest of `data`.
pub uninterp spec fn sha1(data: Seq<u8>) -> Seq<u8>;

/// The SHA-256 digest of `data`.
pub uninterp spec fn sha256(data: Seq<u8>) -> Seq<u8>;

/// The standard, padded base64 encoding of `data`.
pub uninterp spec fn base64_standard_encode(data: Seq<u8>) -> Seq<char>;

/// The bytes that the standard, padded base64 engine decodes from `text`,
/// or `None` where it reports an error.
pub uninterp spec fn base64_standard_decode(text: Seq<char>) -> Option<Seq<u8>>;

/// The error of a base64 decoding, carried through as an opaque value.
#[verifier::external_type_specification]
#[verifier::external_body]
pub struct ExDecodeError(base64::DecodeError);

/// Calls `VerifyingKey::<NistP224>::from_public_key_pem`. Whether it
/// succeeds is named by `p224_pem_is_public_key`; the key is recorded with
/// the PEM it came from.
#[verifier::external_body]
pub(crate) fn p224_key_from_pem(pem: &str) -> (r: Option<LoadedKey>)
    ensures
        r is Some == p224_pem_is_public_key(pem@),
        r matches Some(k) ==> k.pem() == pem@,
{
    match p224::ecdsa::VerifyingKey::from_public_key_pem(pem) {
        Ok(key) => Some(LoadedKey { key: P224VerifyingKey { key }, pem: Ghost(pem@) }),
        Err(_) => None,
    }
}

/// Calls `Signature::<NistP224>::from_slice`, which accepts only the
/// fixed-width encoding (`r || s`, 56 bytes for P-224).
#[verifier::external_body]
pub(crate) fn p224_signature_from_slice(bytes: &[u8]) -> (r: Option<ParsedSignature>)
    ensures
        r is Some == p224_signature_slice_ok(bytes@),
        r is Some ==> bytes@.len() == 56,
        r matches Some(s) ==> s.encoded() == bytes@ && !s.is_der(),
{
    match p224::ecdsa::Signature::from_slice(bytes) {
        Ok(sig) => Some(ParsedSignature { sig: P224Signature { sig }, encoded: Ghost(bytes@), der: Ghost(false) }),
        Err(_) => None,
    }
}

/// Calls `Signature::<NistP224>::from_der`.
#[verifier::external_body]
pub(crate) fn p224_signature_from_der(bytes: &[u8]) -> (r: Option<ParsedSignature>)
    ensures
        r is Some == p224_signature_der_ok(bytes@),
        r matches Some(s) ==> s.encoded() == bytes@ && s.is_der(),
{
    match p224::ecdsa::Signature::from_der(bytes) {
        Ok(sig) => Some(ParsedSignature { sig: P224Signature { sig }, encoded: Ghost(bytes@), der: Ghost(true) }),
        Err(_) => None,
    }
}

/// Calls `PrehashVerifier::verify_prehash` of the P-224 verifying key;
/// whether it succeeds is named by `p224_prehash_verifies` over the PEM the
/// key came from, the prehash, and the bytes the signature came from.
#[verifier::external_body]
pub(crate) fn p224_verify_prehash(key: &LoadedKey, prehash: &[u8], sig: &ParsedSignature) -> (r: bool)
    ensures
        r == p224_prehash_verifies(key.pem(), prehash@, sig.encoded(), sig.is_der()),
{
    key.key.key.verify_prehash(prehash, &sig.sig.sig).is_ok()
}

/// Calls `SigningKey::<NistP224>::from_slice`; the key is recorded with
/// the secret scalar it came from.
#[verifier::external_body]
fn p224_signing_key_from_slice(secret: &[u8]) -> (r: Option<RpcnSigningKey>)
    ensures
        r is Some == p224_secret_ok(secret@),
        r matches Some(k) ==> k.secret() == secret@,
{
    match p224::ecdsa::SigningKey::from_slice(secret) {
        Ok(key) => Some(RpcnSigningKey { key: P224SigningKey { key }, secret: Ghost(secret@) }),
        Err(_) => None,
    }
}

/// Calls `PrehashSigner::sign_prehash` of the P-224 signing key and
/// serializes the signature with `Signature::to_bytes` (fixed-width, 56
/// bytes). The outcome is named by `p224_sign` over the key's secret scalar
/// and the prehash.
#[verifier::external_body]
pub(crate) fn p224_sign_prehash(key: &RpcnSigningKey, prehash: &[u8]) -> (r: Option<Vec<u8>>)
    ensures
        match r {
            Some(s) => p224_sign(key.secret(), prehash@) == Some(s@),
            None => p224_sign(key.secret(), prehash@) is None,
        },
        r matches Some(s) ==> s@.len() == 56,
{
    let signed: Result<p224::ecdsa::Signature, ecdsa::Error> = key.key.key.sign_prehash(prehash);
    match signed {
        Ok(sig) => Some(sig.to_bytes().to_vec()),
        Err(_) => None,
    }
}

/// Calls `Digest::digest` of `Sha224`; the digest is 28 bytes long.
#[verifier::external_body]
pub(crate) fn sha224_digest(data: &[u8]) -> (r: Vec<u8>)
    ensures
        r@ == sha224(data@),
        r@.len() == 28,
{
    sha2::Sha224::digest(data).to_vec()
}

/// Calls `VerifyingKey::<NistP192>::from_public_key_pem`; the key is
/// recorded with the PEM it came from.
#[verifier::external_body]
pub(crate) fn p192_key_from_pem(pem: &str) -> (r: Option<LoadedP192Key>)
    ensures
        r is Some == p192_pem_is_public_key(pem@),
        r matches Some(k) ==> k.pem() == pem@,
{
    match p192::ecdsa::VerifyingKey::from_public_key_pem(pem) {
        Ok(key) => Some(LoadedP192Key { key: P192VerifyingKey { key }, pem: Ghost(pem@) }),
        Err(_) => None,
    }
}

/// Calls `VerifyingKey::<NistP256>::from_public_key_pem`; the key is
/// recorded with the PEM it came from.
#[verifier::external_body]
pub(crate) fn p256_key_from_pem(pem: &str) -> (r: Option<LoadedP256Key>)
    ensures
        r is Some == p256_pem_is_public_key(pem@),
        r matches Some(k) ==> k.pem() == pem@,
{
    match p256::ecdsa::VerifyingKey::from_public_key_pem(pem) {
        Ok(key) => Some(LoadedP256Key { key: P256VerifyingKey { key }, pem: Ghost(pem@) }),
        Err(_) => None,
    }
}

/// Calls `Signature::<NistP192>::from_slice`.
#[verifier::external_body]
pub(crate) fn p192_signature_from_slice(bytes: &[u8]) -> (r: Option<ParsedP192Signature>)
    ensures
        r is Some == p192_signature_slice_ok(bytes@),
        r matches Some(s) ==> s.encoded() == bytes@ && !s.is_der(),
{
    match p192::ecdsa::Signature::from_slice(bytes) {
        Ok(sig) => Some(ParsedP192Signature { sig: P192Signature { sig }, encoded: Ghost(bytes@), der: Ghost(false) }),
        Err(_) => None,
    }
}

/// Calls `Signature::<NistP192>::from_der`.
#[verifier::external_body]
pub(crate) fn p192_signature_from_der(bytes: &[u8]) -> (r: Option<ParsedP192Signature>)
    ensures
        r is Some == p192_signature_der_ok(bytes@),
        r matches Some(s) ==> s.encoded() == bytes@ && s.is_der(),
{
    match p192::ecdsa::Signature::from_der(bytes) {
        Ok(sig) => Some(ParsedP192Signature { sig: P192Signature { sig }, encoded: Ghost(bytes@), der: Ghost(true) }),
        Err(_) => None,
    }
}

/// Calls `Signature::<NistP256>::from_slice`.
#[verifier::external_body]
pub(crate) fn p256_signature_from_slice(bytes: &[u8]) -> (r: Option<ParsedP256Signature>)
    ensures
        r is Some == p256_signature_slice_ok(bytes@),
        r matches Some(s) ==> s.encoded() == bytes@ && !s.is_der(),
{
    match p256::ecdsa::Signature::from_slice(bytes) {
        Ok(sig) => Some(ParsedP256Signature { sig: P256Signature { sig }, encoded: Ghost(bytes@), der: Ghost(false) }),
        Err(_) => None,
    }
}

/// Calls `Signature::<NistP256>::from_der`.
#[verifier::external_body]
pub(crate) fn p256_signature_from_der(bytes: &[u8]) -> (r: Option<ParsedP256Signature>)
    ensures
        r is Some == p256_signature_der_ok(bytes@),
        r matches Some(s) ==> s.encoded() == bytes@ && s.is_der(),
{
    match p256::ecdsa::Signature::from_der(bytes) {
        Ok(sig) => Some(ParsedP256Signature { sig: P256Signature { sig }, encoded: Ghost(bytes@), der: Ghost(true) }),
        Err(_) => None,
    }
}

/// Calls `PrehashVerifier::verify_prehash` of the P-192 verifying key.
#[verifier::external_body]
pub(crate) fn p192_verify_prehash(key: &LoadedP192Key, prehash: &[u8], sig: &ParsedP192Signature) -> (r: bool)
    ensures
        r == p192_prehash_verifies(key.pem(), prehash@, sig.encoded(), sig.is_der()),
{
    key.key.key.verify_prehash(prehash, &sig.sig.sig).is_ok()
}

/// Calls `PrehashVerifier::verify_prehash` of the P-256 verifying key.
#[verifier::external_body]
pub(crate) fn p256_verify_prehash(key: &LoadedP256Key, prehash: &[u8], sig: &ParsedP256Signature) -> (r: bool)
    ensures
        r == p256_prehash_verifies(key.pem(), prehash@, sig.encoded(), sig.is_der()),
{
    key.key.key.verify_prehash(prehash, &sig.sig.sig).is_ok()
}

/// Calls `Digest::digest` of `Sha1`; the digest is 20 bytes long.
#[verifier::external_body]
pub(crate) fn sha1_digest(data: &[u8]) -> (r: Vec<u8>)
    ensures
        r@ == sha1(data@),
        r@.len() == 20,
{
    sha1::Sha1::digest(data).to_vec()
}

/// Calls `Digest::digest` of `Sha256`; the digest is 32 bytes long.
#[verifier::external_body]
pub(crate) fn sha256_digest(data: &[u8]) -> (r: Vec<u8>)
    ensures
        r@ == sha256(data@),
        r@.len() == 32,
{
    sha2::Sha256::digest(data).to_vec()
}

/// Calls `Engine::encode` of `base64::engine::general_purpose::STANDARD`.
/// The padded encoding takes 4 characters per started 3 bytes, and the same
/// engine decodes it back to `data`.
#[verifier::external_body]
pub(crate) fn base64_encode(data: &[u8]) -> (r: String)
    ensures
        r@ == base64_standard_encode(data@),
        r@.len() == (data@.len() + 2) / 3 * 4,
        base64_standard_decode(r@) == Some(data@),
{
    base64::engine::general_purpose::STANDARD.encode(data)
}

/// Calls `Engine::decode` of `base64::engine::general_purpose::STANDARD`.
#[verifier::external_body]
pub(crate) fn base64_decode(text: &str) -> (r: Result<Vec<u8>, base64::DecodeError>)
    ensures
        match r {
            Ok(bytes) => base64_standard_decode(text@) == Some(bytes@),
            Err(_) => base64_standard_decode(text@) is None,
        },
{
    base64::engine::general_purpose::STANDARD.decode(text)
}

} // verus!
