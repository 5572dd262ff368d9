//! The capture format.

use bluetooth_monitor::capture::{
    csv_record, direction_code, direction_label, read_bmon, write_raw_string, write_record,
    BmonError, CaptureError, CapturePaths, CaptureRecord, CaptureSession, MAX_PAYLOAD_BYTES,
};
use std::path::PathBuf;

fn record<'a>(direction: &'a str, data: &'a [u8]) -> CaptureRecord<'a> {
    CaptureRecord {
        timestamp: "2026-09-21 10:00:00.000",
        direction,
        service_uuid: "service",
        characteristic_uuid: "char",
        data,
    }
}

fn session() -> CaptureSession {
    CaptureSession::start(CapturePaths {
        csv: PathBuf::from("a.csv"),
        raw: PathBuf::from("a.bmon"),
    })
}

#[test]
fn raw_direction_codes_are_stable() {
    assert_eq!(direction_code("RX"), 1);
    assert_eq!(direction_code("RD"), 2);
    assert_eq!(direction_code("TX"), 3);
    assert_eq!(direction_code("?"), 0);
    assert_eq!(direction_label(1), "RX");
    assert_eq!(direction_label(2), "RD");
    assert_eq!(direction_label(3), "TX");
}

#[test]
fn bmon_round_trip() {
    let mut session = session();
    session
        .write(CaptureRecord {
            timestamp: "2026-09-21 10:00:00.000",
            direction: "RX",
            service_uuid: "service",
            characteristic_uuid: "char",
            data: &[0x01, 0xA5, 0xFF],
        })
        .unwrap();
    let raw = session.take_pending();

    let records = read_bmon(&raw).unwrap();
    assert_eq!(records.len(), 1);
    assert_eq!(records[0].direction, "RX");
    assert_eq!(records[0].data, vec![0x01, 0xA5, 0xFF]);
}

#[test]
fn layout_of_a_record() {
    let mut bytes = Vec::new();
    let packet = CaptureRecord {
        timestamp: "é",
        direction: "TX",
        service_uuid: "s",
        characteristic_uuid: "",
        data: &[9, 8],
    };
    write_record(&mut bytes, &packet).unwrap();
    assert_eq!(bytes, vec![2, 0, 0xC3, 0xA9, 3, 1, 0, b's', 0, 0, 2, 0, 0, 0, 9, 8]);
}

#[test]
fn session_counts_and_hands_out_its_bytes() {
    let mut session = session();
    assert_eq!(session.records(), 0);
    assert_eq!(session.take_pending(), b"BMON\x01".to_vec());
    session.write(record("RX", &[1])).unwrap();
    session.write(record("what", &[])).unwrap();
    assert_eq!(session.records(), 2);
    assert_eq!(session.paths().raw, PathBuf::from("a.bmon"));
    let mut bytes = b"BMON\x01".to_vec();
    bytes.extend(session.take_pending());
    assert_eq!(session.take_pending(), Vec::<u8>::new());
    let records = read_bmon(&bytes).unwrap();
    assert_eq!(records.len(), 2);
    assert_eq!(records[0].timestamp, "2026-09-21 10:00:00.000");
    assert_eq!(records[0].service_uuid, "service");
    assert_eq!(records[0].characteristic_uuid, "char");
    assert_eq!(records[1].direction, "?");
    assert_eq!(records[1].data, Vec::<u8>::new());
}

#[test]
fn texts_that_do_not_fit_are_refused() {
    let long = "x".repeat(65_536);
    let mut bytes = Vec::new();
    assert_eq!(write_raw_string(&mut bytes, &long), Err(CaptureError::StringTooLong));
    assert!(bytes.is_empty());
    write_raw_string(&mut bytes, &long[1..]).unwrap();
    assert_eq!(bytes.len(), 2 + 65_535);
    assert_eq!(CaptureError::StringTooLong.message(), "BMON 字符串字段过长");

    let mut session = session();
    let packet = CaptureRecord { service_uuid: &long, ..record("RX", &[1]) };
    assert_eq!(session.write(packet), Err(CaptureError::StringTooLong));
    assert_eq!(session.records(), 0);
    assert_eq!(session.take_pending().len(), 5 + 2 + 23 + 1);
}

#[test]
fn truncated_captures_are_refused() {
    let mut session = session();
    session.write(record("RX", &[1, 2])).unwrap();
    let bytes = session.take_pending();
    let expected = |length: usize| match length {
        0..=4 => Some(BmonError::HeaderTruncated),
        5 => None,
        6 => Some(BmonError::StringLengthTruncated),
        7..=29 => Some(BmonError::StringTruncated),
        30 => Some(BmonError::DirectionTruncated),
        31..=32 => Some(BmonError::StringLengthTruncated),
        33..=39 => Some(BmonError::StringTruncated),
        40..=41 => Some(BmonError::StringLengthTruncated),
        42..=45 => Some(BmonError::StringTruncated),
        46..=49 => Some(BmonError::NumberTruncated),
        50..=51 => Some(BmonError::PayloadTruncated),
        _ => None,
    };
    assert_eq!(bytes.len(), 52);
    for length in 0..=bytes.len() {
        assert_eq!(read_bmon(&bytes[..length]).err(), expected(length), "{length}");
    }
}

#[test]
fn foreign_files_are_refused() {
    assert_eq!(read_bmon(b"BMON\x02").unwrap_err(), BmonError::NotBmon);
    assert_eq!(read_bmon(b"PNG..").unwrap_err(), BmonError::NotBmon);
    assert_eq!(read_bmon(b"BMON\x01\x02\x00\xC3\x28").unwrap_err(), BmonError::NotUtf8);
}

#[test]
fn oversized_payloads_are_refused_before_they_are_read() {
    let mut bytes = b"BMON\x01".to_vec();
    bytes.extend([0, 0, 1, 0, 0, 0, 0]);
    bytes.extend(((MAX_PAYLOAD_BYTES + 1) as u32).to_le_bytes());
    let error = read_bmon(&bytes).unwrap_err();
    assert_eq!(error, BmonError::PayloadTooLarge(MAX_PAYLOAD_BYTES + 1));
    assert_eq!(error.message(), "BMON payload 过大: 16777217 bytes");
}

#[test]
fn messages_name_the_field() {
    assert_eq!(BmonError::HeaderTruncated.message(), "读取 BMON 文件头失败");
    assert_eq!(BmonError::NotBmon.message(), "不是受支持的 BMON v1 文件");
    assert_eq!(BmonError::DirectionTruncated.message(), "BMON direction 字段不完整");
    assert_eq!(BmonError::StringLengthTruncated.message(), "BMON 字符串长度不完整");
    assert_eq!(BmonError::StringTooLarge(70_000).message(), "BMON 字符串字段过大: 70000 bytes");
    assert_eq!(BmonError::StringTruncated.message(), "BMON 字符串字段不完整");
    assert_eq!(BmonError::NotUtf8.message(), "BMON 字符串不是 UTF-8");
    assert_eq!(BmonError::NumberTruncated.message(), "BMON u32 字段不完整");
    assert_eq!(BmonError::PayloadTruncated.message(), "BMON payload 不完整");
}

#[test]
fn csv_rows_show_the_payload_in_both_notations() {
    let row = csv_record(&record("RD", b"A\x00"));
    assert_eq!(row.timestamp, "2026-09-21 10:00:00.000");
    assert_eq!(row.direction, "RD");
    assert_eq!(row.length, 2);
    assert_eq!(row.hex, "41 00");
    assert_eq!(row.ascii, "A.");
}
