//! The state behind the window.

use bluetooth_monitor::ble::model::{
    AdapterInfo, BleCommand, BleEvent, CharacteristicInfo, CharacteristicKey,
    CharacteristicProperties, DescriptorInfo, DescriptorKey, DeviceInfo, GattSnapshot, ServiceInfo,
};
use bluetooth_monitor::capture::{CapturePaths, ReplayRecord};
use bluetooth_monitor::i18n::{Catalog, Catalogs, Language, LocalizedText};
use bluetooth_monitor::monitor::analyzer::{DelimiterCheck, FrameKind};
use bluetooth_monitor::monitor::log::{parse_direction, LogDirection, LogEntry, TrafficStats};
use bluetooth_monitor::monitor::session::{MAX_LOG_ENTRIES, MAX_PROTOCOL_FRAMES};
use bluetooth_monitor::monitor::state::{AppPreferences, ConnectionPhase, Monitor};
use bluetooth_monitor::monitor::store::{
    can_restore, needs_capture, restore_session, ReplayControl,
};
use bluetooth_monitor::monitor::texts::device_row_text;
use bluetooth_monitor::monitor::tx::PeriodicStep;
use bluetooth_monitor::numbers::F64Bits;
use bluetooth_monitor::plotting::PlotValueType;
use bluetooth_monitor::profile::StoredProfile;
use bluetooth_monitor::protocol::{FrameMode, ProtocolConfig, ProtocolDecoder};
use bluetooth_monitor::protocol_preset::load_all;
use bluetooth_monitor::workspace::{SessionKind, WorkspaceSession};
use std::path::PathBuf;

fn monitor() -> Monitor {
    Monitor::new(AppPreferences::default(), load_all(None), Vec::new(), "start".to_owned())
}

fn catalogs() -> Catalogs {
    Catalogs { english: Catalog { entries: vec![] }, chinese: Catalog { entries: vec![] } }
}

fn shown(message: &LocalizedText) -> String {
    match message {
        LocalizedText::Message { key, args } => format!("{key} {args:?}"),
        LocalizedText::Diagnostic(text) => text.clone(),
    }
}

fn status(monitor: &Monitor) -> String {
    shown(&monitor.status)
}

fn handle(monitor: &mut Monitor, event: BleEvent) {
    assert!(monitor.can_handle(&event));
    monitor.handle_event(event, "1.5".to_owned());
}

fn device(id: &str, name: &str, rssi: Option<i16>) -> DeviceInfo {
    DeviceInfo {
        id: id.to_owned(),
        name: name.to_owned(),
        address: format!("addr-{id}"),
        address_type: None,
        rssi,
        tx_power: None,
        appearance: None,
        manufacturer_data: Vec::new(),
        service_data: Vec::new(),
        advertised_services: Vec::new(),
    }
}

fn key(name: &str) -> CharacteristicKey {
    CharacteristicKey { service_uuid: "service".to_owned(), characteristic_uuid: name.to_owned() }
}

fn characteristic(name: &str, write: bool, without: bool) -> CharacteristicInfo {
    CharacteristicInfo {
        key: key(name),
        properties: CharacteristicProperties {
            read: true,
            write,
            write_without_response: without,
            notify: true,
            indicate: false,
        },
        descriptors: Vec::new(),
    }
}

fn notification(name: &str, data: Vec<u8>) -> BleEvent {
    BleEvent::Notification { characteristic: key(name), data, timestamp: "12:00".to_owned() }
}

fn entry(name: &str, direction: LogDirection, data: Vec<u8>) -> LogEntry {
    LogEntry {
        timestamp: "12:00".to_owned(),
        direction,
        service_uuid: "service".to_owned(),
        characteristic_uuid: name.to_owned(),
        data,
    }
}

fn record(timestamp: &str, direction: &str, byte: u8) -> ReplayRecord {
    ReplayRecord {
        timestamp: timestamp.to_owned(),
        direction: direction.to_owned(),
        service_uuid: "service".to_owned(),
        characteristic_uuid: "char".to_owned(),
        data: vec![byte],
    }
}

fn ids(monitor: &Monitor) -> Vec<&str> {
    monitor.devices.devices.iter().map(|d| d.id.as_str()).collect()
}

fn connect(monitor: &mut Monitor, id: &str, name: &str) {
    handle(
        monitor,
        BleEvent::Connected { peripheral_id: id.to_owned(), name: name.to_owned(), mtu: 185 },
    );
}

#[test]
fn devices_are_ranked_by_signal_and_name() {
    let mut monitor = monitor();
    for d in [
        device("1", "b", Some(-50)),
        device("2", "a", Some(-50)),
        device("3", "c", None),
        device("4", "d", Some(-20)),
    ] {
        handle(&mut monitor, BleEvent::DeviceUpsert { device: d });
    }
    assert_eq!(ids(&monitor), vec!["4", "2", "1", "3"]);
    assert_eq!(monitor.devices.selected_id.as_deref(), Some("1"));
    handle(&mut monitor, BleEvent::DeviceRssi { peripheral_id: "3".to_owned(), rssi: -10 });
    handle(&mut monitor, BleEvent::DeviceRssi { peripheral_id: "9".to_owned(), rssi: 0 });
    assert_eq!(ids(&monitor), vec!["3", "4", "2", "1"]);
    handle(&mut monitor, BleEvent::DeviceUpsert { device: device("4", "d", Some(-90)) });
    assert_eq!(ids(&monitor), vec!["3", "2", "1", "4"]);
    assert_eq!(monitor.devices.selected_device().unwrap().name, "b");
    monitor.devices.filter.min_rssi = -60;
    assert_eq!(monitor.devices.visible_devices().len(), 3);
    assert_eq!(device_row_text(&monitor.devices.devices[0], true), "● c\n-10 dBm  addr-3");
    assert_eq!(device_row_text(&device("x", "n", None), false), "n\nRSSI -  addr-x");
    handle(&mut monitor, BleEvent::ScanStopped);
    assert_eq!(status(&monitor), "扫描已停止：{} 个设备 [\"4\"]");
    handle(&mut monitor, BleEvent::DevicesCleared);
    assert!(ids(&monitor).is_empty() && monitor.devices.selected_id.is_none());
}

#[test]
fn adapter_events_are_shown() {
    let mut monitor = monitor();
    assert_eq!(status(&monitor), "等待 Bluetooth Worker []");
    let adapter = AdapterInfo {
        index: 1,
        name: "hci1".to_owned(),
        address: None,
        state: "Powered On".to_owned(),
    };
    handle(&mut monitor, BleEvent::Ready { adapters: vec![adapter.clone()], selected_adapter: 0 });
    assert_eq!(status(&monitor), "Bluetooth 已就绪：{} [\"hci1\"]");
    assert_eq!(monitor.connection.adapter_state, "Powered On");
    handle(&mut monitor, BleEvent::Ready { adapters: vec![], selected_adapter: 0 });
    assert_eq!(status(&monitor), "Bluetooth 已就绪 []");
    handle(&mut monitor, BleEvent::AdapterSelected { adapter });
    assert_eq!(monitor.connection.selected_adapter, 1);
    assert_eq!(monitor.connection.phase, ConnectionPhase::Disconnected);
    handle(&mut monitor, BleEvent::AdapterState { state: "Powered Off".to_owned() });
    assert_eq!(monitor.connection.adapter_state, "Powered Off");
    handle(&mut monitor, BleEvent::ScanStarted);
    assert!(monitor.connection.scanning);
    assert!(matches!(monitor.toggle_scan(), BleCommand::StopScan));
    handle(&mut monitor, BleEvent::Fatal("dead".to_owned()));
    assert!(!monitor.connection.scanning);
    assert_eq!(shown(monitor.last_error.as_ref().unwrap()), "dead");
    monitor.devices.filter.services = "180D, 180F".to_owned();
    assert!(matches!(
        monitor.toggle_scan(),
        BleCommand::StartScan { service_uuids } if service_uuids == ["180D", "180F"]
    ));
    assert!(monitor.request_adapter(1).is_none());
    assert!(matches!(monitor.request_adapter(0), Some(BleCommand::SelectAdapter { index: 0 })));
}

#[test]
fn connection_events_move_the_phase() {
    let mut monitor = monitor();
    handle(
        &mut monitor,
        BleEvent::Connecting { peripheral_id: "d".to_owned(), reconnect: false, attempt: 0 },
    );
    assert_eq!(monitor.connection.phase.label(), "Connecting");
    connect(&mut monitor, "d", "Dev");
    assert_eq!(monitor.connection.phase, ConnectionPhase::Connected);
    assert_eq!(status(&monitor), "已连接 {name} · MTU {mtu} [\"Dev\", \"185\"]");
    assert_eq!(monitor.store.sessions[0].meta.name, "Live · Dev");
    handle(
        &mut monitor,
        BleEvent::Disconnected { peripheral_id: Some("d".to_owned()), unexpected: true },
    );
    assert_eq!(monitor.connection.phase, ConnectionPhase::Reconnecting);
    assert_eq!(monitor.connection.target_id.as_deref(), Some("d"));
    handle(&mut monitor, BleEvent::ReconnectScheduled { attempt: 3, delay_ms: 1_500 });
    assert_eq!(
        status(&monitor),
        "将在 {:.1}s 后进行第 {attempt} 次重连 [\"1.5\", \"3\"]"
    );
    handle(&mut monitor, BleEvent::ReconnectFailed { attempt: 3, error: "no".to_owned() });
    assert_eq!(
        shown(monitor.last_error.as_ref().unwrap()),
        "重连 #{attempt} 失败：{error} [\"3\", \"no\"]"
    );
    handle(
        &mut monitor,
        BleEvent::Connecting { peripheral_id: "d".to_owned(), reconnect: true, attempt: 3 },
    );
    assert!(monitor.last_error.is_none());
    handle(&mut monitor, BleEvent::Disconnected { peripheral_id: None, unexpected: false });
    assert_eq!(monitor.connection.phase, ConnectionPhase::Disconnected);
    assert!(monitor.connection.target_id.is_none() && monitor.connection.connected_name.is_none());
}

#[test]
fn discovered_services_are_subscribed_and_selected_for_a_profile() {
    let mut monitor = monitor();
    monitor.gatt.pending = Some(key("b"));
    let snapshot = GattSnapshot {
        services: vec![ServiceInfo {
            uuid: "service".to_owned(),
            primary: true,
            characteristics: vec![characteristic("a", true, true), characteristic("b", true, false)],
        }],
    };
    let effects =
        monitor.handle_event(BleEvent::GattDiscovered { snapshot }, String::new());
    assert!(matches!(effects.command, Some(BleCommand::SubscribeAll)));
    assert_eq!(monitor.gatt.selected_characteristic.as_ref().unwrap().key, key("b"));
    assert!(monitor.gatt.pending.is_none());
    assert_eq!(status(&monitor), "GATT：{} 个 Service [\"1\"]");
    handle(&mut monitor, BleEvent::Disconnected { peripheral_id: None, unexpected: false });
    assert!(monitor.gatt.snapshot.services.is_empty());
    assert!(monitor.gatt.selected_characteristic.is_none());
}

#[test]
fn packets_reach_log_counters_and_capture() {
    let mut monitor = monitor();
    let effects = monitor.handle_event(notification("char", vec![1, 2]), String::new());
    assert!(effects.plotted);
    assert_eq!(effects.packet.unwrap().data, vec![1, 2]);
    let descriptor = DescriptorKey {
        service_uuid: "service".to_owned(),
        characteristic_uuid: "char".to_owned(),
        descriptor_uuid: "2902".to_owned(),
    };
    let effects = monitor.handle_event(
        BleEvent::DescriptorReadResult {
            descriptor,
            data: vec![3],
            timestamp: "t".to_owned(),
        },
        String::new(),
    );
    assert!(!effects.plotted);
    assert_eq!(effects.packet.unwrap().characteristic_uuid, "char / desc 2902");
    handle(
        &mut monitor,
        BleEvent::WriteComplete {
            characteristic: key("char"),
            data: vec![],
            timestamp: "t".to_owned(),
        },
    );
    let session = &monitor.store.sessions[0];
    assert_eq!(session.logs.len(), 3);
    assert_eq!(session.stats.rx_bytes, 2);
    assert_eq!(session.stats.read_packets, 1);
    assert_eq!(session.stats.tx_packets, 1);
}

#[test]
fn paused_display_counts_but_does_not_log() {
    let mut monitor = monitor();
    monitor.view.monitor_paused = true;
    handle(&mut monitor, notification("char", vec![1]));
    handle(
        &mut monitor,
        BleEvent::ReadResult {
            characteristic: key("char"),
            data: vec![2],
            timestamp: "t".to_owned(),
        },
    );
    let session = &monitor.store.sessions[0];
    assert_eq!(session.logs.len(), 1);
    assert_eq!(session.stats.rx_packets, 1);
    assert_eq!(session.stats.paused_rx_packets, 1);
}

#[test]
fn logs_and_frames_keep_the_newest() {
    let mut monitor = monitor();
    monitor.protocol.config = ProtocolConfig { enabled: true, ..ProtocolConfig::default() };
    monitor.set_protocol_source(key("char"));
    for i in 0..MAX_LOG_ENTRIES + 3 {
        handle(&mut monitor, notification("char", vec![(i % 256) as u8]));
    }
    let session = monitor.store.active_session();
    assert_eq!(session.logs.len(), MAX_LOG_ENTRIES);
    assert_eq!(session.logs[0].data, vec![3]);
    assert_eq!(session.protocol_frames.len(), MAX_PROTOCOL_FRAMES);
    assert_eq!(session.protocol_sequence, (MAX_LOG_ENTRIES + 3) as u64);
    let newest = session.protocol_sequence;
    assert_eq!(session.frame_numbered(newest).unwrap().sequence, newest);
    assert!(session.frame_numbered(1).is_none());
}

#[test]
fn only_notifications_of_the_source_are_decoded() {
    let mut monitor = monitor();
    monitor.protocol.config =
        ProtocolConfig { enabled: true, frame_mode: FrameMode::FixedLength { length: 2 }, ..ProtocolConfig::default() };
    handle(&mut monitor, notification("char", vec![1, 2]));
    assert_eq!(monitor.store.sessions[0].protocol_frames.len(), 0);
    monitor.set_protocol_source(key("char"));
    handle(&mut monitor, notification("other", vec![1, 2]));
    handle(
        &mut monitor,
        BleEvent::ReadResult {
            characteristic: key("char"),
            data: vec![1, 2],
            timestamp: "t".to_owned(),
        },
    );
    assert_eq!(monitor.store.sessions[0].protocol_frames.len(), 0);
    handle(&mut monitor, notification("char", vec![1, 2, 3]));
    let session = monitor.store.active_session();
    assert_eq!(session.protocol_frames.len(), 1);
    assert_eq!(session.protocol_frames[0].sequence, 1);
    assert_eq!(session.protocol_decoder.buffered_bytes(), 1);
    let exported = session.protocol_export_frames();
    assert_eq!(exported[0].hex, "01 02");
    assert_eq!(exported[0].crc, "-");
    assert_eq!(exported[0].fields[0].name, "value");
    monitor.switch_frame_kind(FrameKind::Delimiter);
    assert_eq!(monitor.protocol.delimiter_hex, "0D 0A");
    assert_eq!(monitor.store.sessions[0].protocol_frames.len(), 0);
    assert_eq!(monitor.store.sessions[0].protocol_decoder.buffered_bytes(), 0);
}

#[test]
fn another_device_gets_another_session() {
    let mut monitor = monitor();
    handle(&mut monitor, BleEvent::DeviceUpsert { device: device("1", "One", Some(-1)) });
    assert!(monitor.can_connect());
    let command = monitor.connect_selected("c1".to_owned());
    assert!(matches!(command, Some(BleCommand::Connect { peripheral_id }) if peripheral_id == "1"));
    assert_eq!(monitor.store.sessions.len(), 1);
    connect(&mut monitor, "1", "One");
    assert!(!monitor.can_connect());
    assert!(monitor.connect_selected("x".to_owned()).is_none());
    handle(&mut monitor, notification("char", vec![1]));
    handle(&mut monitor, BleEvent::Disconnected { peripheral_id: None, unexpected: false });
    monitor.connect_selected("c2".to_owned());
    assert_eq!(monitor.store.sessions.len(), 1);

    handle(&mut monitor, BleEvent::DeviceUpsert { device: device("2", "Two", Some(-9)) });
    monitor.devices.selected_id = Some("2".to_owned());
    monitor.connect_selected("c3".to_owned());
    assert_eq!(monitor.store.sessions.len(), 2);
    assert_eq!(monitor.store.sessions[0].meta.kind, SessionKind::Capture);
    assert_eq!(monitor.store.sessions[0].meta.name, "Capture · One");
    assert_eq!(monitor.store.sessions[0].logs.len(), 1);
    assert_eq!(monitor.store.live, 1);
    assert_eq!(monitor.store.active, 1);
    assert_eq!(monitor.store.sessions[1].meta.name, "Live · Two");
    assert_eq!(monitor.store.sessions[1].meta.id, 2);
    assert_eq!(monitor.store.sessions[1].meta.created_at, "c3");
    handle(&mut monitor, notification("char", vec![2]));
    assert_eq!(monitor.store.sessions[0].logs.len(), 1);
    assert_eq!(monitor.store.sessions[1].logs.len(), 1);
}

#[test]
fn replay_sessions_come_and_go() {
    let mut monitor = monitor();
    monitor.open_replay(
        PathBuf::from("/x/a.bmon"),
        "/x/a.bmon".to_owned(),
        Some("a.bmon".to_owned()),
        vec![record("2026-09-21 12:00:00.000", "RX", 1), record("2026-09-21 12:00:01.000", "?", 2)],
        "now".to_owned(),
    );
    assert_eq!(status(&monitor), "已载入 {count} 条回放记录：{} [\"2\", \"/x/a.bmon\"]");
    assert_eq!(monitor.store.active, 1);
    assert_eq!(monitor.store.sessions[1].meta.name, "a.bmon");
    monitor.store.control_replay(ReplayControl::PlayPause, 0, 5);
    let due = monitor.store.tick_replay(1_000);
    assert_eq!(due.len(), 2);
    let mut packets = Vec::new();
    for item in due {
        packets.push(monitor.ingest_replay_record(item));
    }
    assert_eq!(packets[0].as_ref().unwrap().data, vec![1]);
    assert!(packets[1].is_none());
    assert_eq!(monitor.store.sessions[1].logs.len(), 1);
    assert_eq!(monitor.store.sessions[0].logs.len(), 0);

    monitor.store.control_replay(ReplayControl::Seek(0), 0, 0);
    assert_eq!(monitor.store.step_replay(0).unwrap().data, vec![1]);
    monitor.store.add_replay_bookmark(61_005);
    let bookmark = &monitor.store.sessions[1].meta.bookmarks[0];
    assert_eq!(bookmark.label, "Replay 01:01.005");
    assert_eq!(bookmark.replay_position_ms, Some(61_005));

    monitor.close_session(0);
    assert_eq!(monitor.store.sessions.len(), 2);
    monitor.activate_session(0, 0);
    assert_eq!(monitor.store.active, 0);
    monitor.close_session(1);
    assert_eq!(monitor.store.sessions.len(), 1);
    assert_eq!(monitor.store.live, 0);
    monitor.activate_session(7, 0);
    assert_eq!(monitor.store.active, 0);
}

#[test]
fn bookmarks_are_numbered_and_edited() {
    let mut monitor = monitor();
    monitor.store.add_log_bookmark(&entry("char", LogDirection::Rx, vec![1, 2]));
    monitor.store.add_log_bookmark(&entry("char", LogDirection::Tx, vec![]));
    {
        let marks = &monitor.store.sessions[0].meta.bookmarks;
        assert_eq!(marks[0].id, 1);
        assert_eq!(marks[0].label, "RX 12:00");
        assert_eq!(marks[0].hex, "01 02");
        assert_eq!(marks[0].source, "log");
        assert_eq!(marks[1].id, 2);
    }
    monitor.store.relabel_bookmark(2, "mine".to_owned());
    monitor.store.relabel_bookmark(9, "none".to_owned());
    assert_eq!(monitor.store.sessions[0].meta.bookmarks[1].label, "mine");
    monitor.store.remove_bookmark(1);
    assert_eq!(monitor.store.sessions[0].meta.bookmarks.len(), 1);
    assert_eq!(monitor.store.sessions[0].meta.bookmarks[0].id, 2);
    monitor.store.set_notes("note".to_owned());
    assert_eq!(monitor.store.sessions[0].meta.notes, "note");

    monitor.protocol.config = ProtocolConfig { enabled: true, ..ProtocolConfig::default() };
    monitor.set_protocol_source(key("char"));
    handle(&mut monitor, notification("char", vec![7]));
    let frame = monitor.store.sessions[0].protocol_frames[0].clone();
    let source = monitor.protocol.source.clone();
    monitor.store.add_protocol_bookmark(&frame, &source);
    let mark = &monitor.store.sessions[0].meta.bookmarks[1];
    assert_eq!(mark.id, 3);
    assert_eq!(mark.label, "Protocol frame #1");
    assert_eq!(mark.sequence, Some(1));
    assert_eq!(mark.characteristic_uuid, "char");
}

#[test]
fn workspaces_come_back() {
    let mut monitor = monitor();
    monitor.workspace.name = "bench".to_owned();
    monitor.open_replay(PathBuf::from("r.bmon"), String::new(), None, vec![], "t".to_owned());
    monitor.store.add_log_bookmark(&entry("char", LogDirection::Rx, vec![1]));
    let file = monitor.workspace_snapshot();
    assert_eq!(file.active_session_id, Some(2));
    assert_eq!(file.sessions[1].name, "Replay");
    assert!(!needs_capture(&file.sessions[0]));
    assert!(needs_capture(&file.sessions[1]));

    assert!(can_restore(&file.sessions));
    let mut other = Monitor::new(AppPreferences::default(), vec![], vec![], "n".to_owned());
    let command = other.open_workspace(
        PathBuf::from("w.json"),
        "w.json".to_owned(),
        file,
        vec![None, None],
        "n".to_owned(),
    );
    assert!(matches!(command, BleCommand::Disconnect));
    assert_eq!(other.workspace.name, "bench");
    assert_eq!(other.store.sessions.len(), 2);
    assert_eq!(other.store.active, 1);
    assert_eq!(other.store.live, 0);
    assert_eq!(other.store.next_session_id, 3);
    assert_eq!(other.store.next_bookmark_id, 2);
    assert!(other.store.sessions[1].replay.is_none());
    assert_eq!(status(&other), "Workspace 已打开：{} [\"w.json\"]");
    other.workspace_saved(PathBuf::from("w2.json"), "w2.json".to_owned());
    assert_eq!(other.workspace.path, Some(PathBuf::from("w2.json")));
}

#[test]
fn workspaces_without_a_live_session_get_one() {
    let mut meta = WorkspaceSession::blank("t".to_owned());
    meta.id = 7;
    meta.kind = SessionKind::Capture;
    meta.source_path = Some(PathBuf::from("c.bmon"));
    let restored = restore_session(meta.clone(), Some(vec![record("?", "RX", 1)]));
    assert_eq!(restored.replay.as_ref().unwrap().len(), 1);
    let mut file = bluetooth_monitor::workspace::WorkspaceFile::blank("t".to_owned());
    file.sessions = vec![meta];
    file.active_session_id = Some(99);
    file.saved_at = "then".to_owned();
    let mut monitor = monitor();
    monitor.apply_workspace(PathBuf::from("w"), "w".to_owned(), file, vec![restored], "n".to_owned());
    assert_eq!(monitor.store.sessions.len(), 2);
    assert_eq!(monitor.store.live, 1);
    assert_eq!(monitor.store.active, 1);
    assert_eq!(monitor.store.sessions[1].meta.id, 8);
    assert_eq!(monitor.store.sessions[1].meta.name, "Live 8");
    assert_eq!(status(&monitor), "Workspace 已打开：{} · saved {saved_at} [\"w\", \"then\"]");
    let mut blank = bluetooth_monitor::workspace::WorkspaceFile::blank("t".to_owned());
    blank.sessions.clear();
    monitor.open_workspace(PathBuf::from("w"), "w".to_owned(), blank, vec![], "n".to_owned());
    assert_eq!(monitor.store.sessions.len(), 1);
    assert_eq!(monitor.store.sessions[0].meta.id, 1);
}

#[test]
fn history_keeps_the_newest_texts_once() {
    let mut monitor = monitor();
    monitor.tx.remember_tx(" 01 ");
    monitor.tx.remember_tx("02");
    monitor.tx.remember_tx("02");
    monitor.tx.remember_tx("01");
    monitor.tx.remember_tx("   ");
    assert_eq!(monitor.tx.history_list(), vec!["01", "02"]);
    for i in 0..150 {
        monitor.tx.remember_tx(&format!("{i:04}"));
    }
    assert_eq!(monitor.tx.history.len(), 100);
    assert_eq!(monitor.tx.history[0], "0149");
}

#[test]
fn writes_need_a_writable_characteristic_and_bytes() {
    let mut monitor = monitor();
    monitor.tx.tx_hex = "01 02".to_owned();
    assert!(monitor.send_now().is_none());
    connect(&mut monitor, "d", "D");
    assert!(monitor.send_now().is_none());
    monitor.select_characteristic(characteristic("c", true, true), None);
    assert!(monitor.tx.write_with_response);
    assert!(matches!(
        monitor.send_now(),
        Some(BleCommand::Write { data, with_response: true, .. }) if data == [1, 2]
    ));
    assert_eq!(monitor.tx.history_list(), vec!["01 02"]);
    monitor.tx.tx_hex = "0".to_owned();
    assert!(monitor.send_now().is_none());
    monitor.tx.tx_hex = String::new();
    assert!(monitor.send_now().is_none());
    monitor.select_characteristic(characteristic("c", false, false), None);
    monitor.tx.tx_hex = "01".to_owned();
    assert!(monitor.send_now().is_none());
    monitor.tx.settle_write_mode(characteristic("c", true, false).properties);
    assert!(monitor.tx.write_with_response);
    monitor.tx.settle_write_mode(characteristic("c", false, true).properties);
    assert!(!monitor.tx.write_with_response);
    monitor.tx.descriptor_hex = "01 00".to_owned();
    assert!(monitor.write_descriptor().is_none());
    let descriptor = DescriptorInfo {
        key: DescriptorKey {
            service_uuid: "s".to_owned(),
            characteristic_uuid: "c".to_owned(),
            descriptor_uuid: "d".to_owned(),
        },
    };
    monitor.select_characteristic(characteristic("c", true, true), Some(descriptor));
    assert!(matches!(
        monitor.write_descriptor(),
        Some(BleCommand::WriteDescriptor { data, .. }) if data == [1, 0]
    ));
}

#[test]
fn periodic_sender_keeps_its_interval() {
    let mut monitor = monitor();
    assert!(matches!(monitor.tick_periodic_send(0), PeriodicStep::Idle));
    monitor.tx.set_interval(5);
    assert_eq!(monitor.tx.periodic_interval_ms, 100);
    monitor.tx.set_periodic(true);
    monitor.tx.tx_hex = "0A".to_owned();
    connect(&mut monitor, "d", "D");
    monitor.select_characteristic(characteristic("c", false, true), None);
    assert!(matches!(monitor.tick_periodic_send(1_000), PeriodicStep::Wait(100)));
    assert!(matches!(monitor.tick_periodic_send(1_040), PeriodicStep::Wait(60)));
    assert!(matches!(
        monitor.tick_periodic_send(1_100),
        PeriodicStep::Due {
            command: Some(BleCommand::Write { with_response: false, .. }),
            wait_ms: 100,
        }
    ));
    assert_eq!(monitor.tx.periodic_sent, 1);
    assert!(matches!(monitor.tick_periodic_send(1_199), PeriodicStep::Wait(1)));
    monitor.tx.tx_hex = "bad!".to_owned();
    assert!(matches!(
        monitor.tick_periodic_send(1_200),
        PeriodicStep::Due { command: None, wait_ms: 100 }
    ));
    assert_eq!(monitor.tx.periodic_sent, 1);
    monitor.tx.set_periodic(false);
    assert!(matches!(monitor.tick_periodic_send(9_000), PeriodicStep::Idle));
    assert_eq!(monitor.tx.periodic_next, None);
}

#[test]
fn profiles_restore_the_settings() {
    let mut first = monitor();
    handle(&mut first, BleEvent::DeviceUpsert { device: device("1", "Sensor", Some(-1)) });
    first.tx.tx_hex = "01".to_owned();
    first.tx.remember_tx("01");
    first.devices.filter.name = "sen".to_owned();
    first.connection.auto_reconnect = false;
    first.plot.use_source(0, key("char"));
    first.set_protocol_source(key("char"));
    first.select_characteristic(characteristic("char", true, false), None);
    let profile = first.current_profile();
    assert_eq!(profile.name, "Sensor");
    assert_eq!(profile.device_id.as_deref(), Some("1"));
    assert_eq!(profile.tx_history, vec!["01"]);

    let mut second = Monitor::new(
        AppPreferences::default(),
        vec![],
        vec![StoredProfile { path: PathBuf::from("p.json"), profile }],
        "t".to_owned(),
    );
    handle(&mut second, BleEvent::DeviceUpsert { device: device("0", "Zero", Some(-1)) });
    handle(&mut second, BleEvent::DeviceUpsert { device: device("1", "Sensor", Some(-1)) });
    assert_eq!(second.devices.selected_id.as_deref(), Some("0"));
    let command = second.apply_profile(0);
    assert!(matches!(command, Some(BleCommand::SetAutoReconnect { enabled: false })));
    assert_eq!(second.devices.selected_id.as_deref(), Some("1"));
    assert_eq!(second.devices.filter.name, "sen");
    assert_eq!(second.tx.history_list(), vec!["01"]);
    assert_eq!(second.protocol.source, Some(key("char")));
    assert_eq!(second.gatt.pending, Some(key("char")));
    assert_eq!(second.plot.channels[0].config.source, Some(key("char")));
    assert_eq!(status(&second), "已加载 Profile：{} [\"Sensor\"]");
    assert!(second.apply_profile(0).is_none());
    assert!(second.apply_profile(5).is_none());
    second.profile_saved("x".to_owned(), vec![], None, "p".to_owned());
    assert_eq!(second.profiles.name, "x");
}

#[test]
fn profile_names_fall_back() {
    let mut monitor = monitor();
    assert_eq!(monitor.current_profile().name, "BLE Profile");
    handle(&mut monitor, BleEvent::DeviceUpsert { device: device("1", "(unknown)", None) });
    assert_eq!(monitor.current_profile().name, "BLE Profile");
    assert_eq!(monitor.current_profile().address.as_deref(), Some("addr-1"));
    monitor.profiles.name = " mine ".to_owned();
    assert_eq!(monitor.current_profile().name, "mine");
}

#[test]
fn presets_are_applied_and_saved() {
    let mut monitor = monitor();
    monitor.apply_protocol_preset(1);
    assert_eq!(monitor.protocol.preset_name, "CRLF text lines");
    assert_eq!(monitor.protocol.delimiter_hex, "0D 0A");
    assert!(monitor.protocol.config.enabled);
    assert_eq!(status(&monitor), "已应用协议预设：{} [\"CRLF text lines\"]");
    monitor.apply_protocol_preset(99);
    assert_eq!(monitor.protocol.selected_preset, Some(1));
    monitor.protocol.preset_name = "  ".to_owned();
    assert_eq!(monitor.protocol.preset_to_save().name, "Custom Protocol");
    monitor.protocol.preset_saved("n".to_owned(), load_all(None), Some(2));
    assert_eq!(monitor.protocol.selected_preset, Some(2));
}

#[test]
fn analyzer_settings_are_checked() {
    let mut monitor = monitor();
    assert!(matches!(monitor.protocol.apply_delimiter(), DelimiterCheck::Unused));
    monitor.switch_frame_kind(FrameKind::Delimiter);
    monitor.protocol.delimiter_hex = "FF".to_owned();
    assert!(matches!(monitor.protocol.apply_delimiter(), DelimiterCheck::Taken));
    assert_eq!(
        monitor.protocol.config.frame_mode,
        FrameMode::Delimiter { delimiter: vec![0xFF], keep: false }
    );
    monitor.protocol.delimiter_hex = " ".to_owned();
    assert!(matches!(monitor.protocol.apply_delimiter(), DelimiterCheck::Empty));
    monitor.protocol.delimiter_hex = "F".to_owned();
    assert!(matches!(monitor.protocol.apply_delimiter(), DelimiterCheck::Invalid(_)));
    assert_eq!(monitor.protocol.config.frame_mode.kind(), FrameKind::Delimiter);
    monitor.switch_frame_kind(FrameKind::LengthField);
    monitor.switch_frame_kind(FrameKind::FixedLength);
    assert_eq!(monitor.protocol.config.frame_mode, FrameMode::FixedLength { length: 8 });
    for _ in 0..40 {
        monitor.protocol.add_field();
    }
    assert_eq!(monitor.protocol.config.fields.len(), 32);
    assert_eq!(monitor.protocol.config.fields[1].name, "field2");
    monitor.protocol.remove_field(0);
    assert_eq!(monitor.protocol.config.fields[0].name, "field2");
}

#[test]
fn plot_channels_take_samples() {
    let mut monitor = monitor();
    monitor.plot.use_source(0, key("char"));
    monitor.plot.channels[0].config.value_type = PlotValueType::I8;
    let packet = entry("char", LogDirection::Rx, vec![0xFF]);
    let readings = monitor.plot.readings(&packet);
    assert_eq!(readings.len(), 4);
    assert!(readings[0].is_some() && readings[1].is_none());
    let values = readings
        .iter()
        .map(|r| r.map(|_| F64Bits { bits: (-1.0f64).to_bits() }))
        .collect::<Vec<_>>();
    monitor.plot.capture_plot_sample(&packet, &values);
    assert_eq!(monitor.plot.channels[0].samples.len(), 1);
    let sent = entry("char", LogDirection::Tx, vec![1]);
    assert!(monitor.plot.readings(&sent).iter().all(|r| r.is_none()));
    monitor.plot.capture_plot_sample(&sent, &values);
    assert_eq!(monitor.plot.channels[0].samples.len(), 1);
    monitor.plot.clear_plot_samples();
    assert_eq!(monitor.plot.channels[0].samples.len(), 0);
    for _ in 0..9 {
        monitor.plot.add_channel();
    }
    assert_eq!(monitor.plot.channels.len(), 8);
    assert_eq!(monitor.plot.channels[7].config.name, "CH8");
    for _ in 0..9 {
        monitor.plot.remove_last();
    }
    assert_eq!(monitor.plot.channels.len(), 1);
    monitor.plot.use_source(5, key("x"));
}

#[test]
fn log_filter_looks_everywhere() {
    let mut monitor = monitor();
    handle(&mut monitor, notification("Char-A", b"Hello".to_vec()));
    handle(
        &mut monitor,
        BleEvent::WriteComplete {
            characteristic: key("other"),
            data: vec![0xAB],
            timestamp: "13:00".to_owned(),
        },
    );
    let logs = &monitor.store.sessions[0].logs;
    let mut filter = bluetooth_monitor::monitor::log::LogFilter {
        text: String::new(),
        show_rx: true,
        show_read: true,
        show_tx: true,
    };
    let mut count = |text: &str| {
        filter.text = text.to_owned();
        filter.visible_entries(logs).len()
    };
    assert_eq!(count(""), 2);
    assert_eq!(count(" char-a "), 1);
    assert_eq!(count("hello"), 1);
    assert_eq!(count("ab"), 1);
    assert_eq!(count("13:0"), 1);
    assert_eq!(count("SERVICE"), 2);
    assert_eq!(count("48 65"), 1);
    assert_eq!(count("nothing"), 0);
    filter.text = String::new();
    filter.show_tx = false;
    assert_eq!(filter.visible_entries(logs).len(), 1);
    assert_eq!(parse_direction("RD"), Some(LogDirection::Read));
    assert_eq!(parse_direction("rx"), None);
    assert_eq!(LogDirection::Tx.label(), "TX");
}

#[test]
fn full_counters_are_noticed() {
    let mut monitor = monitor();
    monitor.store.sessions[0].stats =
        TrafficStats { rx_bytes: u64::MAX - 1, ..TrafficStats::default() };
    assert!(monitor.can_handle(&notification("c", vec![1])));
    assert!(!monitor.can_handle(&notification("c", vec![1, 2])));
    assert!(monitor.can_handle(&BleEvent::ScanStarted));
}

#[test]
fn captures_are_reported() {
    let mut monitor = monitor();
    let paths = CapturePaths { csv: PathBuf::from("a.csv"), raw: PathBuf::from("a.bmon") };
    monitor.capture_started(paths);
    assert_eq!(monitor.store.sessions[0].meta.source_path, Some(PathBuf::from("a.bmon")));
    monitor.capture_write_failed("full".to_owned());
    assert_eq!(shown(monitor.capture.error.as_ref().unwrap()), "捕获写入失败：{error:#} [\"full\"]");
    monitor.capture_stopped(3, None);
    assert_eq!(status(&monitor), "捕获已保存：{records} records [\"3\"]");
    monitor.capture_stopped(3, Some("io".to_owned()));
    assert_eq!(shown(monitor.capture.error.as_ref().unwrap()), "刷新捕获文件失败：{error:#} [\"io\"]");
    monitor.worker_stopped();
    assert_eq!(shown(monitor.last_error.as_ref().unwrap()), "Bluetooth Worker 已停止 []");
}

#[test]
fn preferences_survive_a_restart() {
    let mut monitor = monitor();
    monitor.view.language = Language::English;
    monitor.devices.filter.name = "ESP32".to_owned();
    monitor.plot.use_source(1, key("char"));
    let kept = monitor.preferences();
    assert_eq!(kept.language, Language::English);
    let again = Monitor::new(kept, vec![], vec![], "t".to_owned());
    assert_eq!(again.view.language, Language::English);
    assert_eq!(again.devices.filter.name, "ESP32");
    assert_eq!(again.plot.channels[1].config.source, Some(key("char")));

    let odd = AppPreferences {
        plot_channels: Vec::new(),
        plot_max_points: 1,
        periodic_interval_ms: 1,
        ..AppPreferences::default()
    };
    let monitor = Monitor::new(odd, vec![], vec![], "t".to_owned());
    assert_eq!(monitor.plot.channels.len(), 4);
    assert_eq!(monitor.plot.max_points, 100);
    assert_eq!(monitor.tx.periodic_interval_ms, 100);
    assert_eq!(monitor.protocol.delimiter_hex, "0D 0A");
    assert_eq!(monitor.status.render(Language::English, &catalogs()), "等待 Bluetooth Worker");
}

#[test]
fn session_without_packets_is_archived_for_another_device() {
    let mut monitor = monitor();
    handle(&mut monitor, BleEvent::DeviceUpsert { device: device("1", "One", Some(-1)) });
    handle(&mut monitor, BleEvent::DeviceUpsert { device: device("2", "Two", Some(-9)) });
    monitor.protocol.config = ProtocolConfig {
        enabled: true,
        frame_mode: FrameMode::FixedLength { length: 4 },
        ..ProtocolConfig::default()
    };
    monitor.set_protocol_source(key("char"));
    monitor.devices.selected_id = Some("1".to_owned());
    monitor.connect_selected("c1".to_owned());
    connect(&mut monitor, "1", "One");
    monitor.view.monitor_paused = true;
    handle(&mut monitor, notification("char", vec![1, 2, 3]));
    monitor.store.add_log_bookmark(&entry("char", LogDirection::Rx, vec![1]));
    monitor.store.set_notes("first".to_owned());
    handle(&mut monitor, BleEvent::Disconnected { peripheral_id: None, unexpected: false });
    assert!(monitor.store.sessions[0].logs.is_empty());
    assert!(monitor.store.sessions[0].protocol_frames.is_empty());

    monitor.devices.selected_id = Some("2".to_owned());
    monitor.connect_selected("c2".to_owned());
    connect(&mut monitor, "2", "Two");
    assert_eq!(monitor.store.sessions.len(), 2);
    let old = &monitor.store.sessions[0];
    assert_eq!(old.meta.kind, SessionKind::Capture);
    assert_eq!(old.meta.name, "Capture · One");
    assert_eq!(old.meta.device_id.as_deref(), Some("1"));
    assert_eq!(old.meta.notes, "first");
    assert_eq!(old.meta.bookmarks.len(), 1);
    assert_eq!(old.stats.rx_packets, 1);
    assert_eq!(old.protocol_decoder.buffered_bytes(), 3);
    let fresh = &monitor.store.sessions[1];
    assert_eq!(fresh.meta.kind, SessionKind::Live);
    assert_eq!(fresh.meta.id, 2);
    assert_eq!(fresh.meta.device_id.as_deref(), Some("2"));
    assert!(fresh.meta.notes.is_empty());
    assert!(fresh.meta.bookmarks.is_empty());
    assert_eq!(fresh.stats.rx_packets, 0);
    assert_eq!(fresh.protocol_decoder.buffered_bytes(), 0);
    assert_eq!((monitor.store.live, monitor.store.active), (1, 1));

    handle(&mut monitor, notification("char", vec![4]));
    assert!(monitor.store.sessions[1].protocol_frames.is_empty());
    assert_eq!(monitor.store.sessions[1].protocol_decoder.buffered_bytes(), 1);
}

#[test]
fn periodic_sender_asks_for_a_readable_text_only_when_it_sends() {
    let mut monitor = monitor();
    monitor.tx.tx_hex = "A设".to_owned();
    assert!(monitor.can_tick_periodic_send(0));
    monitor.tx.set_periodic(true);
    assert!(monitor.can_tick_periodic_send(0));
    monitor.tick_periodic_send(0);
    assert!(monitor.can_tick_periodic_send(1));
    assert!(monitor.can_tick_periodic_send(60_000));
    connect(&mut monitor, "d", "D");
    monitor.select_characteristic(characteristic("c", false, true), None);
    assert!(monitor.can_tick_periodic_send(1));
    assert!(!monitor.can_tick_periodic_send(60_000));
    monitor.tx.tx_hex = "0A".to_owned();
    assert!(monitor.can_tick_periodic_send(60_000));
    assert!(!monitor.can_tick_periodic_send(u64::MAX));
}

#[test]
fn opened_workspace_holds_the_sessions_of_its_file() {
    let meta = |id: u64, kind: SessionKind, source: Option<&str>| {
        let mut meta = WorkspaceSession::blank("t".to_owned());
        meta.id = id;
        meta.kind = kind;
        meta.notes = format!("notes {id}");
        meta.source_path = source.map(PathBuf::from);
        meta
    };
    let mut file = bluetooth_monitor::workspace::WorkspaceFile::blank("t".to_owned());
    file.sessions = vec![
        meta(5, SessionKind::Capture, Some("a.bmon")),
        meta(9, SessionKind::Replay, Some("b.bmon")),
        meta(2, SessionKind::Live, Some("c.bmon")),
        meta(4, SessionKind::Live, None),
        meta(3, SessionKind::Replay, None),
    ];
    file.active_session_id = Some(9);
    let found = || Some(vec![record("?", "RX", 1), record("?", "TX", 2)]);
    let captures = vec![None, found(), found(), None, found()];
    let mut monitor = monitor();
    monitor.open_workspace(PathBuf::from("w"), "w".to_owned(), file, captures, "n".to_owned());
    let store = &monitor.store;
    let ids: Vec<u64> = store.sessions.iter().map(|session| session.meta.id).collect();
    assert_eq!(ids, vec![5, 9, 2, 4, 3]);
    assert_eq!(store.sessions[0].meta.notes, "notes 5");
    let replays: Vec<bool> = store.sessions.iter().map(|s| s.replay.is_some()).collect();
    assert_eq!(replays, vec![false, true, false, false, false]);
    assert_eq!(store.sessions[1].replay.as_ref().unwrap().len(), 2);
    assert_eq!((store.live, store.active), (2, 1));
    assert_eq!((store.next_session_id, store.next_bookmark_id), (10, 1));
}

#[test]
fn workspaces_need_a_number_for_the_live_session() {
    let mut meta = WorkspaceSession::blank("t".to_owned());
    meta.id = u64::MAX;
    meta.kind = SessionKind::Capture;
    assert!(!can_restore(&vec![meta.clone()]));
    let mut live = meta.clone();
    live.kind = SessionKind::Live;
    assert!(can_restore(&vec![meta, live]));
    assert!(can_restore(&vec![]));
}
