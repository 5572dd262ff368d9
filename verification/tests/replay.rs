//! The replay timeline.

use bluetooth_monitor::capture::ReplayRecord;
use bluetooth_monitor::numbers::F32Bits;
use bluetooth_monitor::replay::{
    format_duration, parse_timestamp_ms, timestamp_records, usable_millis, ReplayController,
    MAX_TICK_BATCH,
};
use std::path::PathBuf;

fn record(timestamp: &str, byte: u8) -> ReplayRecord {
    ReplayRecord {
        timestamp: timestamp.to_owned(),
        direction: "RX".to_owned(),
        service_uuid: "service".to_owned(),
        characteristic_uuid: "char".to_owned(),
        data: vec![byte],
    }
}

fn three() -> ReplayController {
    ReplayController::new(
        PathBuf::from("x.bmon"),
        vec![
            record("2026-09-21 12:00:00.000", 1),
            record("2026-09-21 12:00:01.000", 2),
            record("2026-09-21 12:00:02.000", 3),
        ],
    )
}

fn bytes(records: Vec<ReplayRecord>) -> Vec<u8> {
    records.into_iter().map(|r| r.data[0]).collect()
}

#[test]
fn timestamps_become_relative_offsets() {
    let controller = ReplayController::new(
        PathBuf::from("x.bmon"),
        vec![record("2026-09-21 12:00:00.000", 1), record("2026-09-21 12:00:01.250", 2)],
    );
    assert_eq!(controller.duration_ms(), 1_250);
}

#[test]
fn seek_updates_cursor_for_step() {
    let mut controller = ReplayController::new(
        PathBuf::from("x.bmon"),
        vec![record("2026-09-21 12:00:00.000", 1), record("2026-09-21 12:00:01.000", 2)],
    );
    controller.seek(500, 0);
    assert_eq!(controller.step_one(0).unwrap().data, vec![2]);
}

#[test]
fn event_navigation_seeks_without_consuming() {
    let mut controller = ReplayController::new(
        PathBuf::from("x.bmon"),
        vec![
            record("2026-09-21 12:00:00.000", 1),
            record("2026-09-21 12:00:01.000", 2),
            record("2026-09-21 12:00:02.000", 3),
        ],
    );
    assert_eq!(controller.next_event(0), Some(0));
    assert_eq!(controller.step_one(0).unwrap().data, vec![1]);
    assert_eq!(controller.next_event(0), Some(1_000));
    assert_eq!(controller.previous_event(0), Some(0));
}

#[test]
fn timestamps_are_read_in_milliseconds() {
    assert_eq!(parse_timestamp_ms("1970-01-01 00:00:01.250"), Some(1_250));
    assert_eq!(parse_timestamp_ms("1970-01-01 00:01:00"), Some(60_000));
    assert_eq!(parse_timestamp_ms("1969-12-31 23:59:59.000"), None);
    assert_eq!(parse_timestamp_ms("yesterday"), None);
    assert_eq!(usable_millis(Some(-1)), None);
    assert_eq!(usable_millis(Some(7)), Some(7));
    assert_eq!(usable_millis(None), None);
}

#[test]
fn unreadable_timestamps_are_spaced_and_never_run_backwards() {
    let records: Vec<ReplayRecord> = (0..4).map(|i| record("?", i)).collect();
    let offsets = |parsed: Vec<Option<u64>>| -> Vec<u64> {
        timestamp_records(records.clone(), &parsed).into_iter().map(|r| r.offset_ms).collect()
    };
    assert_eq!(offsets(vec![None, None, None, None]), vec![0, 10, 20, 30]);
    assert_eq!(offsets(vec![Some(500), Some(600), None, Some(650)]), vec![0, 100, 110, 150]);
    assert_eq!(offsets(vec![Some(0), Some(1_000), None, None]), vec![0, 1_000, 1_010, 1_020]);
    assert_eq!(offsets(vec![Some(0), Some(50), None, Some(55)]), vec![0, 50, 60, 60]);
    assert_eq!(
        offsets(vec![Some(0), Some(u64::MAX - 5), None, None]),
        vec![0, u64::MAX - 5, u64::MAX, u64::MAX]
    );
    assert_eq!(offsets(vec![None, Some(500), Some(400), Some(501)]), vec![0, 0, 20, 20]);
    let controller = ReplayController::new(PathBuf::from("x.bmon"), records);
    assert_eq!(controller.duration_ms(), 30);
}

#[test]
fn unreadable_timestamp_comes_ten_milliseconds_after_its_predecessor() {
    let records = vec![
        record("2026-09-21 12:00:00.000", 1),
        record("2026-09-21 12:00:01.000", 2),
        record("bad", 3),
    ];
    let parsed: Vec<Option<u64>> =
        records.iter().map(|record| parse_timestamp_ms(&record.timestamp)).collect();
    let timed = timestamp_records(records.clone(), &parsed);
    let offsets: Vec<u64> = timed.iter().map(|record| record.offset_ms).collect();
    assert_eq!(offsets, vec![0, 1_000, 1_010]);
    assert_eq!(timed[2].record.data, vec![3]);
    assert_eq!(ReplayController::new(PathBuf::from("x.bmon"), records).duration_ms(), 1_010);
}

#[test]
fn playing_hands_out_what_is_due() {
    let mut controller = three();
    assert!(controller.tick(5_000).is_empty());
    controller.play(7);
    assert!(controller.is_playing());
    assert_eq!(controller.anchor(), Some(7));
    assert_eq!(bytes(controller.tick(0)), vec![1]);
    assert_eq!(bytes(controller.tick(999)), Vec::<u8>::new());
    assert_eq!(controller.position_ms(), 999);
    assert_eq!(bytes(controller.tick(1_500)), vec![2]);
    assert_eq!(bytes(controller.tick(9_999)), vec![3]);
    assert!(!controller.is_playing());
    assert_eq!(controller.position_ms(), 2_000);
    assert_eq!(controller.anchor(), None);
    controller.play(8);
    assert_eq!(controller.position_ms(), 0);
    assert_eq!(bytes(controller.tick(2_000)), vec![1, 2, 3]);
}

#[test]
fn ticks_add_up_to_one_tick() {
    let mut slow = three();
    let mut fast = three();
    slow.play(0);
    fast.play(0);
    let mut seen = bytes(slow.tick(400));
    seen.extend(bytes(slow.tick(1_000)));
    assert_eq!(seen, bytes(fast.tick(1_000)));
    assert_eq!(slow.position_ms(), fast.position_ms());
}

#[test]
fn pause_keeps_the_place() {
    let mut controller = three();
    controller.play(0);
    controller.pause(700);
    assert_eq!(controller.position_ms(), 700);
    assert!(!controller.is_playing());
    controller.pause(5_000);
    assert_eq!(controller.position_ms(), 700);
    controller.stop();
    assert_eq!(controller.position_ms(), 0);
    assert_eq!(controller.current_event_index(), Some(0));
}

#[test]
fn seeking_goes_to_the_first_record_there_or_later() {
    let mut controller = three();
    controller.seek(1_000, 0);
    assert_eq!(controller.current_event_index(), Some(1));
    controller.seek(1_001, 0);
    assert_eq!(controller.current_event_index(), Some(2));
    controller.seek(99_999, 0);
    assert_eq!(controller.position_ms(), 2_000);
    assert_eq!(controller.step_one(0).unwrap().data, vec![3]);
    assert_eq!(controller.step_one(0), None);
    assert_eq!(controller.current_event_index(), Some(2));
    assert_eq!(controller.seek_event_index(3, 0), None);
    assert_eq!(controller.seek_event_index(1, 0), Some(1_000));
    assert_eq!(controller.position_ms(), 1_000);
}

#[test]
fn speed_is_clamped_like_a_number() {
    let mut controller = three();
    assert_eq!(f32::from_bits(controller.speed().bits), 1.0);
    for speed in [0.0f32, -3.0, 0.05, 0.1, 0.25, 1.0, 20.0, 20.5, 1e9, f32::INFINITY, f32::NEG_INFINITY] {
        controller.set_speed(F32Bits { bits: speed.to_bits() }, 0, 0);
        assert_eq!(f32::from_bits(controller.speed().bits), speed.clamp(0.25, 20.0));
    }
    controller.set_speed(F32Bits { bits: f32::NAN.to_bits() }, 0, 0);
    assert!(controller.speed().is_nan());
}

#[test]
fn changing_the_speed_keeps_the_place() {
    let mut controller = three();
    controller.play(10);
    controller.set_speed(F32Bits { bits: 2.0f32.to_bits() }, 300, 20);
    assert_eq!(controller.position_ms(), 300);
    assert_eq!(controller.anchor(), Some(20));
    assert_eq!(bytes(controller.tick(100)), vec![1]);
    assert_eq!(controller.position_ms(), 400);
}

#[test]
fn empty_captures_do_not_play() {
    let mut controller = ReplayController::new(PathBuf::from("x.bmon"), Vec::new());
    assert_eq!(controller.len(), 0);
    controller.play(0);
    assert!(!controller.is_playing());
    assert_eq!(controller.current_event_index(), None);
    assert_eq!(controller.next_event(0), None);
    assert_eq!(controller.previous_event(0), None);
    assert_eq!(controller.path(), &PathBuf::from("x.bmon"));
}

#[test]
fn batches_are_limited() {
    let records: Vec<ReplayRecord> =
        (0..MAX_TICK_BATCH + 5).map(|_| record("2026-09-21 12:00:00.000", 1)).collect();
    let mut controller = ReplayController::new(PathBuf::from("x.bmon"), records);
    controller.play(0);
    assert_eq!(controller.tick(0).len(), MAX_TICK_BATCH);
    assert!(controller.is_playing());
    assert_eq!(controller.tick(0).len(), 5);
    assert!(!controller.is_playing());
}

#[test]
fn durations_are_shown_in_minutes() {
    assert_eq!(format_duration(0), "00:00.000");
    assert_eq!(format_duration(61_005), "01:01.005");
    assert_eq!(format_duration(6_000_000), "100:00.000");
}
