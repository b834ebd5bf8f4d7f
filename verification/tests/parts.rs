use psn_ticket::dates::validate_dates_at;
use psn_ticket::text::decode_string;
use psn_ticket::{Signature, Ticket, TicketData, Version};

#[test]
fn version_from_known_codes() {
    assert_eq!(Version::from_u16(0x2100), Some(Version::V2));
    assert_eq!(Version::from_u16(0x2101), Some(Version::V2_1));
    assert_eq!(Version::from_u16(0x3100), Some(Version::V3));
    assert_eq!(Version::from_u16(0x4100), Some(Version::V4));
}

#[test]
fn version_from_unknown_codes() {
    assert_eq!(Version::from_u16(0), None);
    assert_eq!(Version::from_u16(0x2102), None);
    assert_eq!(Version::from_u16(0x4000), None);
    assert_eq!(Version::from_u16(0xFFFF), None);
}

#[test]
fn version_code_reads_back() {
    for v in [Version::V2, Version::V2_1, Version::V3, Version::V4] {
        assert_eq!(Version::from_u16(v.code()), Some(v));
    }
    assert_eq!(Version::V2_1.code(), 0x2101);
}

#[test]
fn version_ticket_lengths() {
    assert_eq!(Version::V2.ticket_length(), 212);
    assert_eq!(Version::V2_1.ticket_length(), 212);
    assert_eq!(Version::V3.ticket_length(), 220);
    assert_eq!(Version::V4.ticket_length(), 320);
}

#[test]
fn version_console_signature_lengths() {
    let console = Signature::Console(vec![]);
    assert_eq!(Version::V2.signature_length(&console), 16);
    assert_eq!(Version::V2_1.signature_length(&console), 16);
    assert_eq!(Version::V3.signature_length(&console), 16);
    assert_eq!(Version::V4.signature_length(&console), 32);
}

#[test]
fn signature_from_rpcn_id_is_emulator() {
    let s = Signature::from_bytes(*b"RPCN", &[1, 2, 3]);
    assert_eq!(s, Signature::Emulator(vec![1, 2, 3]));
    assert_eq!(s.signed_data(), &[1, 2, 3]);
}

#[test]
fn signature_from_other_id_is_console() {
    let s = Signature::from_bytes(*b"RPCM", &[9]);
    assert_eq!(s, Signature::Console(vec![9]));
    assert_eq!(s.signed_data(), &[9]);
    let s = Signature::from_bytes([0, 0, 0, 0], &[]);
    assert_eq!(s, Signature::Console(vec![]));
}

#[test]
fn signature_default_is_empty_emulator() {
    assert_eq!(Signature::default(), Signature::Emulator(vec![]));
}

#[test]
fn console_signed_data_lengths() {
    let console = Signature::Console(vec![]);
    assert_eq!(console.signed_data_length(Version::V2), 180);
    assert_eq!(console.signed_data_length(Version::V2_1), 180);
    assert_eq!(console.signed_data_length(Version::V3), 188);
    assert_eq!(console.signed_data_length(Version::V4), 272);
}

#[test]
fn ticket_data_ids() {
    assert_eq!(TicketData::Empty().id(), 0);
    assert_eq!(TicketData::U32(5).id(), 1);
    assert_eq!(TicketData::U64(5).id(), 2);
    assert_eq!(TicketData::BString(vec![]).id(), 4);
    assert_eq!(TicketData::Time(5).id(), 7);
    assert_eq!(TicketData::Binary(vec![]).id(), 8);
    assert_eq!(TicketData::Blob(0, vec![]).id(), 0x3000);
    assert_eq!(TicketData::Blob(2, vec![]).id(), 0x3002);
    assert_eq!(TicketData::Blob(0xFF, vec![]).id(), 0x30FF);
}

#[test]
fn ticket_data_lengths() {
    assert_eq!(TicketData::Empty().len(), 0);
    assert_eq!(TicketData::U32(5).len(), 4);
    assert_eq!(TicketData::U64(5).len(), 8);
    assert_eq!(TicketData::Time(5).len(), 8);
    assert_eq!(TicketData::BString(vec![1, 2, 3]).len(), 3);
    assert_eq!(TicketData::Binary(vec![0; 70000]).len(), (70000 % 65536) as u16);
    let blob = TicketData::Blob(
        0,
        vec![TicketData::U32(1), TicketData::Binary(vec![1, 2]), TicketData::Empty()],
    );
    assert_eq!(blob.len(), 8 + 6 + 4);
}

#[test]
fn ticket_data_write_scalars() {
    let mut dest = vec![0xAA];
    TicketData::U32(0x01020304).write(&mut dest);
    assert_eq!(dest, vec![0xAA, 0, 1, 0, 4, 1, 2, 3, 4]);

    let mut dest = Vec::new();
    TicketData::Time(0x0102030405060708).write(&mut dest);
    assert_eq!(dest, vec![0, 7, 0, 8, 1, 2, 3, 4, 5, 6, 7, 8]);

    let mut dest = Vec::new();
    TicketData::U64(1).write(&mut dest);
    assert_eq!(dest, vec![0, 2, 0, 8, 0, 0, 0, 0, 0, 0, 0, 1]);

    let mut dest = Vec::new();
    TicketData::Empty().write(&mut dest);
    assert_eq!(dest, vec![0, 0, 0, 0]);
}

#[test]
fn ticket_data_write_strings() {
    let mut dest = Vec::new();
    TicketData::BString(b"ab".to_vec()).write(&mut dest);
    assert_eq!(dest, vec![0, 4, 0, 2, b'a', b'b']);

    let mut dest = Vec::new();
    TicketData::Binary(vec![9, 8, 7]).write(&mut dest);
    assert_eq!(dest, vec![0, 8, 0, 3, 9, 8, 7]);
}

#[test]
fn ticket_data_write_nested_blob() {
    let inner = TicketData::Blob(1, vec![TicketData::U32(7)]);
    let outer = TicketData::Blob(2, vec![inner, TicketData::Empty()]);
    let mut dest = Vec::new();
    outer.write(&mut dest);
    assert_eq!(
        dest,
        vec![0x30, 0x02, 0, 16, 0x30, 0x01, 0, 8, 0, 1, 0, 4, 0, 0, 0, 7, 0, 0, 0, 0]
    );
    // the header states the length of what follows it
    assert_eq!(dest.len(), outer.len() as usize + 4);
}

#[test]
fn decode_string_trims_trailing_nuls() {
    assert_eq!(decode_string(b"abc\0\0\0"), "abc");
    assert_eq!(decode_string(b"\0\0"), "");
    assert_eq!(decode_string(b""), "");
    assert_eq!(decode_string(b"a\0b\0"), "a\0b");
    assert_eq!(Ticket::decode_string(b"un\0\0"), "un");
}

#[test]
fn decode_string_replaces_invalid_utf8() {
    assert_eq!(decode_string(&[0xFF, b'a', 0]), "\u{FFFD}a");
    assert_eq!(decode_string("é\0".as_bytes()), "é");
}

#[test]
fn dates_must_be_non_zero() {
    assert_eq!(
        validate_dates_at(0, 10, Some(100)),
        Err("Invalid issued or expiration date")
    );
    assert_eq!(
        validate_dates_at(10, 0, Some(100)),
        Err("Invalid issued or expiration date")
    );
}

#[test]
fn dates_must_be_ordered() {
    assert_eq!(
        validate_dates_at(10, 10, Some(100)),
        Err("Expiration date is before issued date")
    );
    assert_eq!(
        validate_dates_at(11, 10, Some(100)),
        Err("Expiration date is before issued date")
    );
}

#[test]
fn dates_need_a_clock_after_the_epoch() {
    assert_eq!(validate_dates_at(1, 2, None), Err("System time before UNIX EPOCH"));
}

#[test]
fn dates_in_the_future() {
    // 5 minutes of leeway
    assert_eq!(validate_dates_at(100_300_000, 100_300_001, Some(100_000)), Ok(()));
    assert_eq!(
        validate_dates_at(100_300_001, 100_300_002, Some(100_000)),
        Err("Issued date is in the future")
    );
}

#[test]
fn dates_too_far_ahead() {
    let now = 1_000_000u64;
    let limit = now * 1000 + 31_536_000_000;
    assert_eq!(validate_dates_at(1, limit, Some(now)), Ok(()));
    assert_eq!(
        validate_dates_at(1, limit + 1, Some(now)),
        Err("Issued or expiration date is too far in the future")
    );
}

#[test]
fn dates_with_huge_clock() {
    assert_eq!(validate_dates_at(1, u64::MAX, Some(u64::MAX)), Ok(()));
}

#[test]
fn dates_with_system_clock() {
    assert_eq!(Ticket::validate_dates(1, 2), Ok(()));
    assert_eq!(
        Ticket::validate_dates(0, 2),
        Err("Invalid issued or expiration date")
    );
    assert_eq!(
        Ticket::validate_dates(u64::MAX - 1, u64::MAX),
        Err("Issued date is in the future")
    );
}
