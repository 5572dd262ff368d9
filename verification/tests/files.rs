//! Profiles, presets, workspaces, exports and the plugin boundary.

use bluetooth_monitor::naming::safe_file_name;
use bluetooth_monitor::numbers::F64Bits;
use bluetooth_monitor::plotting::{RawValue, ScaledValue};
use bluetooth_monitor::plugin::{
    host_api_label, PluginField, PluginFrame, PluginPacket, ProtocolPlugin, ProtocolPluginManifest,
    PROTOCOL_PLUGIN_API_MAJOR, PROTOCOL_PLUGIN_API_MINOR,
};
use bluetooth_monitor::profile;
use bluetooth_monitor::profile::{
    default_periodic_interval_ms, default_scan_min_rssi, load_profiles, save_profile, DeviceProfile,
    StoredProfile,
};
use bluetooth_monitor::protocol::{CrcMode, DecodedField, FrameMode, ProtocolConfig};
use bluetooth_monitor::protocol_export::{
    collect_fields, export_csv, ExportCell, ProtocolExportFrame,
};
use bluetooth_monitor::protocol_preset;
use bluetooth_monitor::protocol_preset::{
    built_in_presets, load_all, save_custom, ProtocolPreset, StoredProtocolPreset,
};
use bluetooth_monitor::workspace::{
    load_workspace, save_workspace, Bookmark, SessionKind, WorkspaceFile, WorkspaceLayout,
    WorkspaceSession, WORKSPACE_VERSION,
};
use std::path::PathBuf;

fn profile_named(name: &str) -> DeviceProfile {
    DeviceProfile {
        name: name.to_owned(),
        device_id: None,
        address: None,
        characteristic: None,
        auto_reconnect: true,
        write_with_response: true,
        tx_hex: "01 02".to_owned(),
        protocol_source: None,
        protocol: ProtocolConfig::default(),
        plot_channels: Vec::new(),
        periodic_interval_ms: default_periodic_interval_ms(),
        tx_history: Vec::new(),
        scan_name_filter: String::new(),
        scan_service_filter: String::new(),
        scan_min_rssi: default_scan_min_rssi(),
        saved_at: String::new(),
    }
}

#[test]
fn profile_filename_is_safe() {
    assert_eq!(profile::sanitize_file_name("ESP32 Sensor #1"), "ESP32_Sensor__1");
    assert_eq!(profile::sanitize_file_name("../x"), ".._x");
}

#[test]
fn names_without_safe_characters_fall_back() {
    assert_eq!(profile::sanitize_file_name("设备"), "profile");
    assert_eq!(profile::sanitize_file_name(""), "profile");
    assert_eq!(protocol_preset::sanitize_file_name("//"), "preset");
    assert_eq!(protocol_preset::sanitize_file_name("_a-b._"), "a-b.");
    assert_eq!(safe_file_name("é1", "x"), "1");
}

#[test]
fn profiles_are_offered_by_name() {
    let stored = |name: &str, path: &str| StoredProfile {
        path: PathBuf::from(path),
        profile: profile_named(name),
    };
    let profiles = load_profiles(vec![
        stored("b", "1"),
        stored("a", "2"),
        stored("B", "3"),
        stored("b", "4"),
    ]);
    let order: Vec<(String, PathBuf)> =
        profiles.into_iter().map(|p| (p.profile.name, p.path)).collect();
    assert_eq!(
        order,
        vec![
            ("B".to_owned(), PathBuf::from("3")),
            ("a".to_owned(), PathBuf::from("2")),
            ("b".to_owned(), PathBuf::from("1")),
            ("b".to_owned(), PathBuf::from("4")),
        ]
    );
}

#[test]
fn saved_profiles_are_stamped() {
    let (profile, file_name) = save_profile(profile_named("My Device"), "now".to_owned());
    assert_eq!(file_name, "My_Device.json");
    assert_eq!(profile.saved_at, "now");
    assert_eq!(profile.tx_hex, "01 02");
    assert_eq!(profile.periodic_interval_ms, 1_000);
    assert_eq!(profile.scan_min_rssi, -127);
    assert_eq!(profile.clone(), profile);
}

#[test]
fn builtins_are_enabled_and_named() {
    let presets = built_in_presets();
    assert!(presets.len() >= 5);
    assert!(presets.iter().all(|value| value.config.enabled));
    assert!(presets.iter().any(|value| value.name.contains("Modbus")));
}

#[test]
fn built_in_presets_hold_their_settings() {
    let presets = built_in_presets();
    assert_eq!(
        presets[1].config.frame_mode,
        FrameMode::Delimiter { delimiter: vec![0x0D, 0x0A], keep: false }
    );
    assert_eq!(presets[2].config.frame_mode, FrameMode::FixedLength { length: 20 });
    assert_eq!(presets[4].config.crc, CrcMode::Crc16ModbusLeTail);
    assert_eq!(presets[4].config.fields[1].name, "function");
    assert_eq!(presets[4].config.fields[1].offset, 1);
    assert_eq!(presets[0].config.fields.len(), 1);
}

#[test]
fn custom_presets_follow_the_built_in_ones() {
    let custom = |name: &str| StoredProtocolPreset {
        preset: ProtocolPreset {
            name: name.to_owned(),
            description: String::new(),
            config: ProtocolConfig::default(),
            saved_at: String::new(),
        },
        path: Some(PathBuf::from(name)),
        built_in: false,
    };
    let all = load_all(Some(vec![custom("z"), custom("a")]));
    assert_eq!(all.len(), 7);
    assert!(all[..5].iter().all(|p| p.built_in && p.path.is_none()));
    assert_eq!(all[5].preset.name, "a");
    assert_eq!(all[6].preset.name, "z");
    assert_eq!(load_all(None).len(), 5);
    let (saved, file_name) = save_custom(all[6].preset.clone(), "t".to_owned());
    assert_eq!(saved.saved_at, "t");
    assert_eq!(file_name, "z.json");
}

#[test]
fn workspaces_of_later_versions_are_refused() {
    let mut file = WorkspaceFile::blank("then".to_owned());
    assert_eq!(file.name, "Untitled Workspace");
    assert_eq!(file.sessions[0].name, "Live Session");
    assert_eq!(file.sessions[0].created_at, "then");
    let saved = save_workspace(&file, "now".to_owned());
    assert_eq!(saved.version, WORKSPACE_VERSION);
    assert_eq!(saved.saved_at, "now");
    assert_eq!(load_workspace(saved).unwrap().name, "Untitled Workspace");
    file.version = 2;
    assert_eq!(load_workspace(file).unwrap_err(), "Workspace version 2 比当前支持的 1 更新");
}

#[test]
fn saving_brings_an_old_workspace_up_to_date() {
    let mut file = WorkspaceFile::blank(String::new());
    file.version = 0;
    file.active_session_id = Some(4);
    let saved = save_workspace(&file, "now".to_owned());
    assert_eq!(saved.version, 1);
    assert_eq!(saved.active_session_id, Some(4));
    assert_eq!(saved.sessions, file.sessions);
}

#[test]
fn workspace_defaults() {
    let layout = WorkspaceLayout::default();
    assert!(layout.show_monitor && layout.show_bookmarks && layout.show_devices_gatt);
    assert_eq!(Bookmark::default().id, 0);
    let session = WorkspaceSession::blank("t".to_owned());
    assert_eq!(session.id, 1);
    assert_eq!(session.kind.label(), "LIVE");
    assert_eq!(SessionKind::Capture.label(), "CAPTURE");
    assert_eq!(SessionKind::Replay.label(), "REPLAY");
}

fn value(n: i64) -> Option<ScaledValue> {
    Some(ScaledValue { raw: RawValue::Int(n), scale: F64Bits::one(), bias: F64Bits::zero() })
}

fn field(name: &str, value: Option<ScaledValue>) -> DecodedField {
    DecodedField { name: name.to_owned(), value }
}

#[test]
fn exported_fields_are_sorted_and_the_last_one_counts() {
    let fields = collect_fields(&[
        field("b", value(1)),
        field("a", value(2)),
        field("b", None),
        field("a", value(4)),
    ]);
    assert_eq!(fields, vec![field("a", value(4)), field("b", None)]);
}

#[test]
fn exported_table_has_a_column_for_every_field() {
    let frame = |sequence: u64, fields: Vec<DecodedField>| ProtocolExportFrame {
        sequence,
        timestamp: "t".to_owned(),
        crc: "OK".to_owned(),
        hex: "01 02".to_owned(),
        fields,
    };
    let table = export_csv(&[
        frame(1, vec![field("temperature", value(12))]),
        frame(2, vec![field("humidity", value(3)), field("temperature", None)]),
    ]);
    assert_eq!(
        table.header,
        vec!["sequence", "timestamp", "crc", "hex", "humidity", "temperature"]
    );
    let text = |s: &str| ExportCell::Text(s.to_owned());
    assert_eq!(
        table.rows,
        vec![
            vec![
                text("1"),
                text("t"),
                text("OK"),
                text("01 02"),
                ExportCell::Blank,
                ExportCell::Number(value(12).unwrap()),
            ],
            vec![
                text("2"),
                text("t"),
                text("OK"),
                text("01 02"),
                ExportCell::Number(value(3).unwrap()),
                ExportCell::Blank,
            ],
        ]
    );
    assert_eq!(export_csv(&[]).header.len(), 4);
}

struct Echo {
    manifest: ProtocolPluginManifest,
    seen: usize,
}

impl ProtocolPlugin for Echo {
    fn manifest(&self) -> &ProtocolPluginManifest {
        &self.manifest
    }

    fn reset(&mut self) {
        self.seen = 0;
    }

    fn push(&mut self, packet: &PluginPacket) -> Vec<PluginFrame> {
        self.seen += 1;
        vec![PluginFrame {
            protocol: self.manifest.id.clone(),
            frame_type: None,
            payload: packet.payload.clone(),
            fields: vec![PluginField {
                name: "count".to_owned(),
                value: Some(F64Bits { bits: (self.seen as f64).to_bits() }),
                text: None,
            }],
            warnings: Vec::new(),
        }]
    }
}

#[test]
fn plugins_see_packets_and_return_frames() {
    assert_eq!(host_api_label(), "Protocol Plugin API 1.0");
    let mut plugin = Echo {
        manifest: ProtocolPluginManifest {
            id: "echo".to_owned(),
            name: "Echo".to_owned(),
            version: "0.1".to_owned(),
            api_major: PROTOCOL_PLUGIN_API_MAJOR,
            api_minor: PROTOCOL_PLUGIN_API_MINOR,
            description: String::new(),
        },
        seen: 0,
    };
    let packet = PluginPacket {
        timestamp: "2026-09-21 12:00:00.000".to_owned(),
        service_uuid: "service".to_owned(),
        characteristic_uuid: "char".to_owned(),
        payload: vec![1, 2, 3],
    };
    let frames = plugin.push(&packet);
    assert_eq!(frames[0].payload, packet.clone().payload);
    assert_eq!(frames.clone(), frames);
    plugin.reset();
    assert_eq!(plugin.manifest().id, "echo");
}

#[test]
fn file_names_have_no_outer_underscores_and_stay_as_they_are() {
    for name in ["__a_b__", " x/y ", "___", "é", "..", "Sensor 1"] {
        let once = safe_file_name(name, "profile");
        assert!(!once.starts_with('_') && !once.ends_with('_'));
        assert_eq!(safe_file_name(&once, "profile"), once);
    }
    assert_eq!(safe_file_name(" x/y ", "profile"), "x_y");
}
