use base64::Engine;
use ecdsa::signature::hazmat::PrehashSigner;
use sha2::Digest;
use p224::pkcs8::{EncodePublicKey, LineEnding};
use psn_ticket::{
    PublicKeys, RpcnSigningKey, Signature, Ticket, TicketDecodeError, Version, DEFAULT_DOMAIN,
    DEFAULT_REGION,
};

const NOW: u64 = 1_700_000_000;
const ISSUED: u64 = 1_700_000_000_000;
const EXPIRES: u64 = 1_700_003_600_000;

fn sample() -> Ticket {
    Ticket {
        serial: "0123456789".to_string(),
        issuer_id: 0x100,
        issued_at: ISSUED,
        expires_at: EXPIRES,
        account_id: 0x1122_3344_5566_7788,
        username: "player_one".to_string(),
        region: "us".to_string(),
        domain: "ps".to_string(),
        service_id: "UP0001-NPXX00000_00".to_string(),
        status: 3,
        signature: Signature::default(),
    }
}

fn rpcn_key() -> p224::ecdsa::SigningKey {
    p224::ecdsa::SigningKey::from_slice(&[7u8; 28]).unwrap()
}

fn rpcn_pem(key: &p224::ecdsa::SigningKey) -> String {
    key.verifying_key().to_public_key_pem(LineEnding::LF).unwrap()
}

fn other_rpcn_pem() -> String {
    rpcn_pem(&p224::ecdsa::SigningKey::from_slice(&[9u8; 28]).unwrap())
}

fn p192_pem() -> String {
    let secret = p192::elliptic_curve::SecretKey::<p192::NistP192>::from_slice(&[5u8; 24]).unwrap();
    secret.public_key().to_public_key_pem(LineEnding::LF).unwrap()
}

fn p256_pem() -> String {
    let secret = p256::SecretKey::from_slice(&[5u8; 32]).unwrap();
    secret.public_key().to_public_key_pem(LineEnding::LF).unwrap()
}

fn keys(rpcn: Option<String>, psn: Option<String>) -> PublicKeys {
    PublicKeys { psn, rpcn }
}

fn signed_bytes(version: Version) -> (Vec<u8>, String) {
    let key = rpcn_key();
    let pem = rpcn_pem(&key);
    let signing = RpcnSigningKey::from_slice(&[7u8; 28]).unwrap();
    (sample().to_bytes(version, Some(&signing)), pem)
}

fn expected_parsed(bytes: &[u8]) -> Ticket {
    Ticket {
        signature: Signature::Emulator(bytes[0x08..0xB0].to_vec()),
        ..sample()
    }
}

#[test]
fn to_bytes_unsigned_layout() {
    let bytes = sample().to_bytes(Version::V2, None);
    assert_eq!(bytes.len(), 248);
    assert_eq!(&bytes[0..4], &[0x21, 0x00, 0x00, 0x00]);
    assert_eq!(&bytes[4..8], &[0, 0, 0, 240]);
    assert_eq!(&bytes[8..12], &[0x30, 0x00, 0x00, 0xA4]);
    assert_eq!(&bytes[12..16], &[0x00, 0x08, 0x00, 0x14]);
    assert_eq!(&bytes[0x10..0x1A], b"0123456789");
    assert_eq!(&bytes[0x1A..0x24], &[0u8; 10]);
    assert_eq!(&bytes[0x28..0x2C], &[0, 0, 1, 0]);
    assert_eq!(&bytes[0x30..0x38], &ISSUED.to_be_bytes());
    assert_eq!(&bytes[0x3C..0x44], &EXPIRES.to_be_bytes());
    assert_eq!(&bytes[0x48..0x50], &[0x11, 0x22, 0x33, 0x44, 0x55, 0x66, 0x77, 0x88]);
    assert_eq!(&bytes[0x50..0x54], &[0x00, 0x04, 0x00, 0x20]);
    assert_eq!(&bytes[0x54..0x5E], b"player_one");
    assert_eq!(&bytes[0x78..0x7C], b"us\0\0");
    assert_eq!(&bytes[0x80..0x84], b"ps\0\0");
    assert_eq!(&bytes[0x88..0x9B], b"UP0001-NPXX00000_00");
    assert_eq!(&bytes[0xA4..0xA8], &[0, 0, 0, 3]);
    assert_eq!(&bytes[0xA8..0xB0], &[0u8; 8]);
    assert_eq!(&bytes[0xB0..0xB4], &[0x30, 0x02, 0x00, 68]);
    assert_eq!(&bytes[0xB4..0xB8], &[0x00, 0x08, 0x00, 0x04]);
    assert_eq!(&bytes[0xB8..0xBC], b"RPCN");
    assert_eq!(&bytes[0xBC..0xC0], &[0x00, 0x08, 0x00, 56]);
    assert_eq!(&bytes[0xC0..], &[0u8; 56]);
}

#[test]
fn to_bytes_version_header() {
    assert_eq!(&sample().to_bytes(Version::V3, None)[0..4], &[0x31, 0, 0, 0]);
    assert_eq!(&sample().to_bytes(Version::V4, None)[0..4], &[0x41, 0, 0, 0]);
    assert_eq!(&sample().to_bytes(Version::V2_1, None)[0..4], &[0x21, 0x01, 0, 0]);
}

#[test]
fn to_bytes_truncates_long_texts() {
    let mut t = sample();
    t.serial = "ABCDEFGHIJKLMNOPQRSTUVWXYZ".to_string();
    let bytes = t.to_bytes(Version::V2, None);
    assert_eq!(bytes.len(), 248);
    assert_eq!(&bytes[0x10..0x24], b"ABCDEFGHIJKLMNOPQRST");
}

#[test]
fn to_bytes_with_signature_places_signature() {
    let sig: Vec<u8> = (0..56).collect();
    let bytes = sample().to_bytes_with_signature(Version::V2, sig.clone());
    assert_eq!(&bytes[0xC0..], sig.as_slice());
    let unsigned = sample().to_bytes(Version::V2, None);
    assert_eq!(&bytes[..0xC0], &unsigned[..0xC0]);
}

#[test]
fn to_bytes_signs_user_data() {
    let (bytes, _) = signed_bytes(Version::V2);
    assert_eq!(bytes.len(), 248);
    assert_ne!(&bytes[0xC0..], &[0u8; 56]);
    let unsigned = sample().to_bytes(Version::V2, None);
    assert_eq!(&bytes[..0xC0], &unsigned[..0xC0]);
}

#[test]
fn to_base64_encodes_bytes() {
    let t = sample();
    let text = t.to_base64(Version::V3, None);
    let expected = base64::engine::general_purpose::STANDARD.encode(t.to_bytes(Version::V3, None));
    assert_eq!(text, expected);
    assert!(text.starts_with("MQAAAAAAAPAwAACk"));
}

#[test]
fn from_bytes_round_trip_rpcn() {
    for version in [Version::V2, Version::V2_1, Version::V3] {
        let (mut bytes, pem) = signed_bytes(version);
        let before = bytes.clone();
        let parsed = Ticket::from_bytes_at(&mut bytes, &keys(Some(pem), None), Some(NOW)).unwrap();
        assert_eq!(parsed, expected_parsed(&before));
        assert_eq!(bytes, before);
    }
}

#[test]
fn from_bytes_rejects_tampered_data() {
    let (mut bytes, pem) = signed_bytes(Version::V2);
    bytes[0x55] ^= 1;
    assert_eq!(
        Ticket::from_bytes_at(&mut bytes, &keys(Some(pem), None), Some(NOW)),
        Err("Invalid signature")
    );
}

#[test]
fn from_bytes_rejects_other_key() {
    let (mut bytes, _) = signed_bytes(Version::V3);
    assert_eq!(
        Ticket::from_bytes_at(&mut bytes, &keys(Some(other_rpcn_pem()), None), Some(NOW)),
        Err("Invalid signature")
    );
}

#[test]
fn from_bytes_rejects_unsigned_rpcn() {
    let mut bytes = sample().to_bytes(Version::V2, None);
    let pem = rpcn_pem(&rpcn_key());
    assert_eq!(
        Ticket::from_bytes_at(&mut bytes, &keys(Some(pem), None), Some(NOW)),
        Err("Invalid RPCN signature format")
    );
}

#[test]
fn from_bytes_needs_rpcn_key() {
    let (mut bytes, _) = signed_bytes(Version::V2);
    assert_eq!(
        Ticket::from_bytes_at(&mut bytes, &keys(None, Some(p192_pem())), Some(NOW)),
        Err("Failed to read public key")
    );
    let (mut bytes, _) = signed_bytes(Version::V2);
    assert_eq!(
        Ticket::from_bytes_at(&mut bytes, &keys(Some("not a key".to_string()), None), Some(NOW)),
        Err("Failed to load RPCN public key")
    );
}

#[test]
fn from_bytes_empty_buffer() {
    let mut bytes: Vec<u8> = vec![];
    assert_eq!(
        Ticket::from_bytes_at(&mut bytes, &keys(None, None), Some(NOW)),
        Err("Empty buffer")
    );
    assert_eq!(Ticket::from_bytes(&mut bytes, &keys(None, None)), Err("Empty buffer"));
}

#[test]
fn from_bytes_unsupported_version() {
    let mut bytes = vec![0x22, 0x00, 0, 0];
    assert_eq!(
        Ticket::from_bytes_at(&mut bytes, &keys(None, None), Some(NOW)),
        Err("Unsupported version")
    );
}

#[test]
fn from_bytes_invalid_length() {
    let mut bytes = vec![0x21, 0x00, 0, 0];
    assert_eq!(
        Ticket::from_bytes_at(&mut bytes, &keys(None, None), Some(NOW)),
        Err("Invalid buffer length")
    );
    let mut bytes = vec![0u8; 401];
    bytes[0] = 0x31;
    assert_eq!(
        Ticket::from_bytes_at(&mut bytes, &keys(None, None), Some(NOW)),
        Err("Invalid buffer length")
    );
    let mut bytes = vec![0u8; 211];
    bytes[0] = 0x41;
    assert_eq!(
        Ticket::from_bytes_at(&mut bytes, &keys(None, None), Some(NOW)),
        Err("Invalid buffer length")
    );
}

#[test]
fn from_bytes_fixes_little_endian_timestamps() {
    let (mut bytes, pem) = signed_bytes(Version::V2);
    let before = bytes.clone();
    bytes[0x30..0x38].reverse();
    bytes[0x3C..0x44].reverse();
    let parsed = Ticket::from_bytes_at(&mut bytes, &keys(Some(pem), None), Some(NOW)).unwrap();
    assert_eq!(parsed.issued_at, ISSUED);
    assert_eq!(parsed.expires_at, EXPIRES);
    assert_eq!(parsed, expected_parsed(&before));
    assert_eq!(bytes, before);
}

#[test]
fn from_bytes_reports_second_date_error() {
    let mut t = sample();
    t.issued_at = 5;
    t.expires_at = 5;
    let mut bytes = t.to_bytes(Version::V2, None);
    let before = bytes.clone();
    assert_eq!(
        Ticket::from_bytes_at(&mut bytes, &keys(None, None), Some(NOW)),
        Err("Expiration date is before issued date")
    );
    // both timestamp fields were byte-swapped, nothing else changed
    let mut swapped = before.clone();
    swapped[0x30..0x38].reverse();
    swapped[0x3C..0x44].reverse();
    assert_eq!(bytes, swapped);
}

#[test]
fn from_bytes_dates_in_future() {
    let mut t = sample();
    t.issued_at = NOW * 1000 + 300_001;
    t.expires_at = t.issued_at + 1;
    let mut bytes = t.to_bytes(Version::V2, None);
    let result = Ticket::from_bytes_at(&mut bytes, &keys(None, None), Some(NOW));
    assert!(result.is_err());
    let mut bytes = sample().to_bytes(Version::V2, None);
    assert_eq!(
        Ticket::from_bytes_at(&mut bytes, &keys(None, None), None),
        Err("System time before UNIX EPOCH")
    );
}

#[test]
fn from_bytes_defaults_region_and_domain() {
    let mut t = sample();
    t.region = String::new();
    t.domain = String::new();
    let pem = rpcn_pem(&rpcn_key());
    let signing = RpcnSigningKey::from_slice(&[7u8; 28]).unwrap();
    let mut bytes = t.to_bytes(Version::V3, Some(&signing));
    let parsed = Ticket::from_bytes_at(&mut bytes, &keys(Some(pem), None), Some(NOW)).unwrap();
    assert_eq!(parsed.region, DEFAULT_REGION);
    assert_eq!(parsed.domain, DEFAULT_DOMAIN);
    assert_eq!(parsed.region, "br");
    assert_eq!(parsed.domain, "un");
}

fn console_v2_bytes() -> Vec<u8> {
    let mut bytes = sample().to_bytes(Version::V2, None);
    bytes[0xB8..0xBC].copy_from_slice(b"NPSG");
    bytes
}

/// A DER signature of `len` bytes whose two integers are small and non-zero.
fn small_der_signature(len: usize) -> Vec<u8> {
    let n = (len - 6) / 2;
    let mut der = vec![0x30, (len - 2) as u8, 0x02, n as u8];
    der.extend((1..=n as u8).collect::<Vec<u8>>());
    der.extend_from_slice(&[0x02, n as u8]);
    der.extend((1..=n as u8).collect::<Vec<u8>>());
    assert_eq!(der.len(), len);
    der
}

#[test]
fn from_bytes_console_v2_checks_signature() {
    // the 16 trailing bytes are zero: no signature
    let mut bytes = console_v2_bytes();
    assert_eq!(
        Ticket::from_bytes_at(&mut bytes, &keys(None, Some(p192_pem())), Some(NOW)),
        Err("Invalid PSN signature format")
    );
    // a well-formed signature that does not verify
    let mut bytes = console_v2_bytes();
    let at = bytes.len() - 16;
    bytes[at..].copy_from_slice(&small_der_signature(16));
    assert_eq!(
        Ticket::from_bytes_at(&mut bytes, &keys(None, Some(p192_pem())), Some(NOW)),
        Err("Invalid signature")
    );
}

#[test]
fn from_bytes_console_v2_key_errors() {
    let mut bytes = console_v2_bytes();
    assert_eq!(
        Ticket::from_bytes_at(&mut bytes, &keys(Some(rpcn_pem(&rpcn_key())), None), Some(NOW)),
        Err("Failed to read public key")
    );
    let mut bytes = console_v2_bytes();
    assert_eq!(
        Ticket::from_bytes_at(&mut bytes, &keys(None, Some(p256_pem())), Some(NOW)),
        Err("Failed to load PSN public key (P-192)")
    );
}

fn console_v4_bytes() -> Vec<u8> {
    let mut b = vec![0u8; 320];
    b[0] = 0x41;
    b[0x14..0x1E].copy_from_slice(b"0123456789");
    b[0x2C..0x30].copy_from_slice(&0x100u32.to_be_bytes());
    b[0x34..0x3C].copy_from_slice(&ISSUED.to_be_bytes());
    b[0x40..0x48].copy_from_slice(&EXPIRES.to_be_bytes());
    b[0x4C..0x54].copy_from_slice(&0x1122_3344_5566_7788u64.to_be_bytes());
    b[0x58..0x62].copy_from_slice(b"player_one");
    b[0x8C..0x9F].copy_from_slice(b"UP0001-NPXX00000_00");
    b[0xC0..0xC4].copy_from_slice(b"PSN\0");
    b
}

#[test]
fn from_bytes_console_v4_checks_signature() {
    let mut bytes = console_v4_bytes();
    assert_eq!(
        Ticket::from_bytes_at(&mut bytes, &keys(None, Some(p256_pem())), Some(NOW)),
        Err("Invalid PSN signature format")
    );
    let mut bytes = console_v4_bytes();
    bytes[320 - 32..].copy_from_slice(&small_der_signature(32));
    assert_eq!(
        Ticket::from_bytes_at(&mut bytes, &keys(None, Some(p256_pem())), Some(NOW)),
        Err("Invalid signature")
    );
    let mut bytes = console_v4_bytes();
    assert_eq!(
        Ticket::from_bytes_at(&mut bytes, &keys(None, Some(p192_pem())), Some(NOW)),
        Err("Failed to load PSN public key (P-256)")
    );
}

#[test]
fn from_base64_round_trip() {
    let now_ms = std::time::SystemTime::now()
        .duration_since(std::time::UNIX_EPOCH)
        .unwrap()
        .as_millis() as u64;
    let mut t = sample();
    t.issued_at = now_ms - 1000;
    t.expires_at = now_ms + 3_600_000;
    let pem = rpcn_pem(&rpcn_key());
    let signing = RpcnSigningKey::from_slice(&[7u8; 28]).unwrap();
    let text = t.to_base64(Version::V3, Some(&signing));
    assert_eq!(text.len(), 332);
    let parsed = Ticket::from_base64(&text, &keys(Some(pem.clone()), None)).unwrap();
    let bytes = t.to_bytes(Version::V3, Some(&signing));
    assert_eq!(parsed, Ticket { signature: Signature::Emulator(bytes[0x08..0xB0].to_vec()), ..t.clone() });

    let mut raw = bytes.clone();
    let parsed = Ticket::from_bytes(&mut raw, &keys(Some(pem), None)).unwrap();
    assert_eq!(parsed.username, t.username);
}

#[test]
fn from_base64_errors() {
    let k = keys(None, None);
    assert!(matches!(
        Ticket::from_base64("not base64!", &k),
        Err(TicketDecodeError::Base64(_))
    ));
    assert!(matches!(
        Ticket::from_base64("AA==", &k),
        Err(TicketDecodeError::Unsupported)
    ));
    assert!(matches!(
        Ticket::from_base64("", &k),
        Err(TicketDecodeError::Ticket("Empty buffer"))
    ));
    let mut v4 = console_v4_bytes();
    v4[0xC0..0xC4].copy_from_slice(b"RPCN");
    let text = base64::engine::general_purpose::STANDARD.encode(&v4);
    assert!(matches!(
        Ticket::from_base64(&text, &k),
        Err(TicketDecodeError::Unsupported)
    ));
}

#[test]
fn ticket_default_is_empty() {
    let t = Ticket::default();
    assert_eq!(t.serial, "");
    assert_eq!(t.issued_at, 0);
    assert_eq!(t.signature, Signature::Emulator(vec![]));
}

#[test]
fn to_bytes_signature_is_over_sha224_of_user_data() {
    let (bytes, _) = signed_bytes(Version::V2);
    let hash = sha2::Sha224::digest(&bytes[0x08..0xB0]);
    let sig: p224::ecdsa::Signature = rpcn_key().sign_prehash(&hash).unwrap();
    assert_eq!(&bytes[0xC0..], sig.to_bytes().as_slice());
}

#[test]
fn from_bytes_accepts_der_signature() {
    let (bytes, pem) = signed_bytes(Version::V2);
    let sig = p224::ecdsa::Signature::from_slice(&bytes[0xC0..]).unwrap();
    let der = sig.to_der();
    let mut with_der = bytes[..0xC0].to_vec();
    with_der.extend_from_slice(der.as_bytes());
    let parsed = Ticket::from_bytes_at(&mut with_der, &keys(Some(pem), None), Some(NOW)).unwrap();
    assert_eq!(parsed, expected_parsed(&bytes));
}

#[test]
fn parse_panics_at_cases() {
    assert!(Ticket::parse_panics_at(&[0x21], Some(NOW)));
    assert!(!Ticket::parse_panics_at(&[], Some(NOW)));
    assert!(!Ticket::parse_panics_at(&[0x21, 0x00], Some(NOW)));
    let mut v4 = console_v4_bytes();
    assert!(!Ticket::parse_panics_at(&v4, Some(NOW)));
    v4[0xC0..0xC4].copy_from_slice(b"RPCN");
    assert!(Ticket::parse_panics_at(&v4, Some(NOW)));
    // dates that do not check at that time: parsing reports them instead
    assert!(!Ticket::parse_panics_at(&v4, None));
    assert!(!Ticket::parse_panics_at(&v4, Some(1)));
    // byte-swapped dates that check
    let mut swapped = v4.clone();
    swapped[0x34..0x3C].reverse();
    swapped[0x40..0x48].reverse();
    assert!(Ticket::parse_panics_at(&swapped, Some(NOW)));
    assert!(!Ticket::parse_panics_at(&sample().to_bytes(Version::V2, None), Some(NOW)));
}

#[test]
fn from_bytes_v4_rpcn_with_bad_dates() {
    let mut v4 = console_v4_bytes();
    v4[0xC0..0xC4].copy_from_slice(b"RPCN");
    v4[0x34..0x3C].copy_from_slice(&[0u8; 8]);
    assert!(!Ticket::parse_panics_at(&v4, Some(NOW)));
    assert_eq!(
        Ticket::from_bytes(&mut v4.clone(), &keys(None, None)),
        Err("Invalid issued or expiration date")
    );
    let text = base64::engine::general_purpose::STANDARD.encode(&v4);
    assert!(matches!(
        Ticket::from_base64(&text, &keys(None, None)),
        Err(TicketDecodeError::Ticket("Invalid issued or expiration date"))
    ));
}

#[test]
fn signing_key_from_slice() {
    assert!(RpcnSigningKey::from_slice(&[0u8; 28]).is_none());
    assert!(RpcnSigningKey::from_slice(&[0xFFu8; 28]).is_none());
    assert!(RpcnSigningKey::from_slice(&[7u8; 23]).is_none());
    assert!(RpcnSigningKey::from_slice(&[7u8; 29]).is_none());
    assert!(RpcnSigningKey::from_slice(&[7u8; 24]).is_some());
    assert!(RpcnSigningKey::from_slice(&[7u8; 28]).is_some());
}

#[test]
fn to_bytes_is_deterministic_under_a_key() {
    let signing = RpcnSigningKey::from_slice(&[7u8; 28]).unwrap();
    let a = sample().to_bytes(Version::V2, Some(&signing));
    let b = sample().to_bytes(Version::V2, Some(&signing));
    assert_eq!(a, b);
    let other = RpcnSigningKey::from_slice(&[9u8; 28]).unwrap();
    assert_ne!(&sample().to_bytes(Version::V2, Some(&other))[0xC0..], &a[0xC0..]);
}

#[test]
fn base64_of_signed_ticket_decodes_to_its_bytes() {
    let signing = RpcnSigningKey::from_slice(&[7u8; 28]).unwrap();
    let text = sample().to_base64(Version::V2, Some(&signing));
    assert_eq!(text.len(), 332);
    let decoded = base64::engine::general_purpose::STANDARD.decode(&text).unwrap();
    assert_eq!(decoded, sample().to_bytes(Version::V2, Some(&signing)));
    assert_eq!(sample().to_base64(Version::V2, None).len(), 332);
}
