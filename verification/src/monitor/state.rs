//! The state behind the window as a whole: what each event of the worker and each request of the
//! user does to it.

use crate::ble::model::{
    AdapterInfo, BleCommand, BleEvent, CharacteristicInfo, CharacteristicKey, DescriptorInfo,
    DeviceInfo, GattSnapshot,
};
#[allow(unused_imports)]
use crate::ble::model::{
    AdapterInfoView, BleCommandView, BleEventView, CharacteristicInfoView, CharacteristicKeyView,
    DescriptorInfoView, DescriptorKeyView, DeviceInfoView, GattSnapshotView,
};
use crate::ble::scan;
use crate::ble::scan::ScanFilter;
#[allow(unused_imports)]
use crate::ble::scan::ScanFilterView;
use crate::capture::{CapturePaths, ReplayRecord};
#[allow(unused_imports)]
use crate::capture::{CapturePathsView, ReplayRecordView};
use crate::codec;
use crate::i18n;
use crate::i18n::{Language, LocalizedText};
#[allow(unused_imports)]
use crate::i18n::LocalizedTextView;
use crate::monitor::analyzer;
use crate::monitor::analyzer::ProtocolPanel;
#[allow(unused_imports)]
use crate::monitor::analyzer::ProtocolPanelView;
use crate::monitor::devices;
use crate::monitor::devices::DevicePanel;
#[allow(unused_imports)]
use crate::monitor::devices::DevicePanelView;
use crate::monitor::gatt;
use crate::monitor::gatt::GattPanel;
#[allow(unused_imports)]
use crate::monitor::gatt::GattPanelView;
use crate::monitor::log;
use crate::monitor::log::{LogDirection, LogEntry, LogFilter};
#[allow(unused_imports)]
use crate::monitor::log::{LogEntryView, LogFilterView};
use crate::monitor::plot;
use crate::monitor::plot::PlotPanel;
#[allow(unused_imports)]
use crate::monitor::plot::PlotPanelView;
use crate::monitor::session;
use crate::monitor::session::RuntimeSession;
#[allow(unused_imports)]
use crate::monitor::session::RuntimeSessionView;
use crate::monitor::store;
use crate::monitor::store::SessionStore;
#[allow(unused_imports)]
use crate::monitor::store::SessionStoreView;
use crate::monitor::tx;
use crate::monitor::tx::{PeriodicStep, TxPanel};
#[allow(unused_imports)]
use crate::monitor::tx::TxPanelView;
use crate::plotting;
use crate::plotting::PlotChannelConfig;
#[allow(unused_imports)]
use crate::plotting::PlotChannelConfigView;
use crate::profile::{DeviceProfile, StoredProfile};
#[allow(unused_imports)]
use crate::profile::{DeviceProfileView, StoredProfileView};
use crate::protocol;
use crate::protocol::ProtocolConfig;
#[allow(unused_imports)]
use crate::protocol::{FrameModeView, ProtocolConfigView};
use crate::protocol_preset::StoredProtocolPreset;
#[allow(unused_imports)]
use crate::protocol_preset::StoredProtocolPresetView;
use crate::text;
use crate::workspace;
use crate::workspace::{WorkspaceFile, WorkspaceLayout};
#[allow(unused_imports)]
use crate::workspace::{WorkspaceFileView, WorkspaceSessionView};
use std::collections::VecDeque;
use std::path::PathBuf;
use vstd::prelude::*;
#[allow(unused_imports)]
use vstd::string::*;

verus! {

/// The fewest samples that a plot channel keeps.
pub const MIN_PLOT_POINTS: usize = 100;

/// Where the connection stands.
#[derive(Debug, Clone, Copy, PartialEq, Eq, Structural)]
pub enum ConnectionPhase {
    Disconnected,
    Connecting,
    Connected,
    Reconnecting,
}

impl ConnectionPhase {
    /// The name shown to the user.
    pub fn label(self) -> (r: &'static str)
        ensures
            r@ == match self {
                ConnectionPhase::Disconnected => "Disconnected"@,
                ConnectionPhase::Connecting => "Connecting"@,
                ConnectionPhase::Connected => "Connected"@,
                ConnectionPhase::Reconnecting => "Reconnecting"@,
            },
    {
        match self {
            ConnectionPhase::Disconnected => "Disconnected",
            ConnectionPhase::Connecting => "Connecting",
            ConnectionPhase::Connected => "Connected",
            ConnectionPhase::Reconnecting => "Reconnecting",
        }
    }
}

/// The settings that outlive the application.
#[derive(Debug)]
pub struct AppPreferences {
    pub language: Language,
    pub auto_scroll: bool,
    pub show_ascii: bool,
    pub write_with_response: bool,
    pub auto_reconnect: bool,
    pub show_rx: bool,
    pub show_read: bool,
    pub show_tx: bool,
    pub plot_max_points: usize,
    pub plot_channels: Vec<PlotChannelConfig>,
    pub protocol_config: ProtocolConfig,
    pub periodic_interval_ms: u64,
    pub scan_name_filter: String,
    pub scan_service_filter: String,
    pub scan_min_rssi: i16,
    pub layout: WorkspaceLayout,
}

/// The mathematical value of [`AppPreferences`].
#[verifier::ext_equal]
pub struct AppPreferencesView {
    pub language: Language,
    pub auto_scroll: bool,
    pub show_ascii: bool,
    pub write_with_response: bool,
    pub auto_reconnect: bool,
    pub show_rx: bool,
    pub show_read: bool,
    pub show_tx: bool,
    pub plot_max_points: usize,
    pub plot_channels: Seq<PlotChannelConfigView>,
    pub protocol_config: ProtocolConfigView,
    pub periodic_interval_ms: u64,
    pub scan_name_filter: Seq<char>,
    pub scan_service_filter: Seq<char>,
    pub scan_min_rssi: i16,
    pub layout: WorkspaceLayout,
}

impl DeepView for AppPreferences {
    type V = AppPreferencesView;

    open spec fn deep_view(&self) -> AppPreferencesView {
        AppPreferencesView {
            language: self.language,
            auto_scroll: self.auto_scroll,
            show_ascii: self.show_ascii,
            write_with_response: self.write_with_response,
            auto_reconnect: self.auto_reconnect,
            show_rx: self.show_rx,
            show_read: self.show_read,
            show_tx: self.show_tx,
            plot_max_points: self.plot_max_points,
            plot_channels: self.plot_channels.deep_view(),
            protocol_config: self.protocol_config.deep_view(),
            periodic_interval_ms: self.periodic_interval_ms,
            scan_name_filter: self.scan_name_filter@,
            scan_service_filter: self.scan_service_filter@,
            scan_min_rssi: self.scan_min_rssi,
            layout: self.layout,
        }
    }
}

impl Clone for AppPreferences {
    fn clone(&self) -> (r: Self)
        ensures
            r.deep_view() == self.deep_view(),
    {
        let r = AppPreferences {
            language: self.language,
            auto_scroll: self.auto_scroll,
            show_ascii: self.show_ascii,
            write_with_response: self.write_with_response,
            auto_reconnect: self.auto_reconnect,
            show_rx: self.show_rx,
            show_read: self.show_read,
            show_tx: self.show_tx,
            plot_max_points: self.plot_max_points,
            plot_channels: self.plot_channels.clone(),
            protocol_config: self.protocol_config.clone(),
            periodic_interval_ms: self.periodic_interval_ms,
            scan_name_filter: self.scan_name_filter.clone(),
            scan_service_filter: self.scan_service_filter.clone(),
            scan_min_rssi: self.scan_min_rssi,
            layout: self.layout,
        };
        assert(r.plot_channels.deep_view() =~= self.plot_channels.deep_view());
        r
    }
}

/// The adapters and the connection.
#[derive(Debug)]
pub struct ConnectionPanel {
    pub adapters: Vec<AdapterInfo>,
    pub selected_adapter: usize,
    pub adapter_state: String,
    pub scanning: bool,
    pub phase: ConnectionPhase,
    pub auto_reconnect: bool,
    /// The device that is or is to be connected.
    pub target_id: Option<String>,
    pub connected_id: Option<String>,
    pub connected_name: Option<String>,
    pub mtu: Option<u16>,
}

/// The mathematical value of [`ConnectionPanel`].
pub struct ConnectionPanelView {
    pub adapters: Seq<AdapterInfoView>,
    pub selected_adapter: usize,
    pub adapter_state: Seq<char>,
    pub scanning: bool,
    pub phase: ConnectionPhase,
    pub auto_reconnect: bool,
    pub target_id: Option<Seq<char>>,
    pub connected_id: Option<Seq<char>>,
    pub connected_name: Option<Seq<char>>,
    pub mtu: Option<u16>,
}

impl DeepView for ConnectionPanel {
    type V = ConnectionPanelView;

    open spec fn deep_view(&self) -> ConnectionPanelView {
        ConnectionPanelView {
            adapters: self.adapters.deep_view(),
            selected_adapter: self.selected_adapter,
            adapter_state: self.adapter_state@,
            scanning: self.scanning,
            phase: self.phase,
            auto_reconnect: self.auto_reconnect,
            target_id: self.target_id.deep_view(),
            connected_id: self.connected_id.deep_view(),
            connected_name: self.connected_name.deep_view(),
            mtu: self.mtu,
        }
    }
}

/// How the monitor is shown.
#[derive(Debug)]
pub struct ViewPanel {
    pub language: Language,
    pub monitor_paused: bool,
    pub log_filter: LogFilter,
    pub auto_scroll: bool,
    pub show_ascii: bool,
}

/// The mathematical value of [`ViewPanel`].
pub struct ViewPanelView {
    pub language: Language,
    pub monitor_paused: bool,
    pub log_filter: LogFilterView,
    pub auto_scroll: bool,
    pub show_ascii: bool,
}

impl DeepView for ViewPanel {
    type V = ViewPanelView;

    open spec fn deep_view(&self) -> ViewPanelView {
        ViewPanelView {
            language: self.language,
            monitor_paused: self.monitor_paused,
            log_filter: self.log_filter.deep_view(),
            auto_scroll: self.auto_scroll,
            show_ascii: self.show_ascii,
        }
    }
}

/// The profiles of devices.
#[derive(Debug)]
pub struct ProfilePanel {
    pub profiles: Vec<StoredProfile>,
    pub selected: Option<usize>,
    pub name: String,
}

/// The mathematical value of [`ProfilePanel`].
pub struct ProfilePanelView {
    pub profiles: Seq<StoredProfileView>,
    pub selected: Option<usize>,
    pub name: Seq<char>,
}

impl DeepView for ProfilePanel {
    type V = ProfilePanelView;

    open spec fn deep_view(&self) -> ProfilePanelView {
        ProfilePanelView {
            profiles: self.profiles.deep_view(),
            selected: self.selected,
            name: self.name@,
        }
    }
}

/// The workspace file and the layout.
#[derive(Debug)]
pub struct WorkspacePanel {
    pub name: String,
    pub path: Option<PathBuf>,
    pub layout: WorkspaceLayout,
}

/// The mathematical value of [`WorkspacePanel`].
pub struct WorkspacePanelView {
    pub name: Seq<char>,
    pub path: Option<PathBuf>,
    pub layout: WorkspaceLayout,
}

impl DeepView for WorkspacePanel {
    type V = WorkspacePanelView;

    open spec fn deep_view(&self) -> WorkspacePanelView {
        WorkspacePanelView {
            name: self.name@,
            path: self.path,
            layout: self.layout,
        }
    }
}

/// The capture that runs or ran.
#[derive(Debug)]
pub struct CapturePanel {
    pub last_paths: Option<CapturePaths>,
    pub error: Option<LocalizedText>,
}

/// The mathematical value of [`CapturePanel`].
pub struct CapturePanelView {
    pub last_paths: Option<CapturePathsView>,
    pub error: Option<LocalizedTextView>,
}

impl DeepView for CapturePanel {
    type V = CapturePanelView;

    open spec fn deep_view(&self) -> CapturePanelView {
        CapturePanelView {
            last_paths: self.last_paths.deep_view(),
            error: self.error.deep_view(),
        }
    }
}

/// The state behind the window.
pub struct Monitor {
    pub connection: ConnectionPanel,
    pub devices: DevicePanel,
    pub gatt: GattPanel,
    pub store: SessionStore,
    pub workspace: WorkspacePanel,
    pub view: ViewPanel,
    pub tx: TxPanel,
    pub plot: PlotPanel,
    pub protocol: ProtocolPanel,
    pub profiles: ProfilePanel,
    pub capture: CapturePanel,
    pub status: LocalizedText,
    pub last_error: Option<LocalizedText>,
}

/// The mathematical value of [`Monitor`].
pub struct MonitorView {
    pub connection: ConnectionPanelView,
    pub devices: DevicePanelView,
    pub gatt: GattPanelView,
    pub store: SessionStoreView,
    pub workspace: WorkspacePanelView,
    pub view: ViewPanelView,
    pub tx: TxPanelView,
    pub plot: PlotPanelView,
    pub protocol: ProtocolPanelView,
    pub profiles: ProfilePanelView,
    pub capture: CapturePanelView,
    pub status: LocalizedTextView,
    pub last_error: Option<LocalizedTextView>,
}

impl DeepView for Monitor {
    type V = MonitorView;

    open spec fn deep_view(&self) -> MonitorView {
        MonitorView {
            connection: self.connection.deep_view(),
            devices: self.devices.deep_view(),
            gatt: self.gatt.deep_view(),
            store: self.store.deep_view(),
            workspace: self.workspace.deep_view(),
            view: self.view.deep_view(),
            tx: self.tx.deep_view(),
            plot: self.plot.deep_view(),
            protocol: self.protocol.deep_view(),
            profiles: self.profiles.deep_view(),
            capture: self.capture.deep_view(),
            status: self.status.deep_view(),
            last_error: self.last_error.deep_view(),
        }
    }
}

/// A translated message with one argument.
pub open spec fn message_1(key: Seq<char>, first: Seq<char>) -> LocalizedTextView {
    LocalizedTextView::Message { key, args: seq![first] }
}

/// A translated message with two arguments.
pub open spec fn message_2(key: Seq<char>, first: Seq<char>, second: Seq<char>) -> LocalizedTextView {
    LocalizedTextView::Message { key, args: seq![first, second] }
}

/// The settings of a new installation.
pub open spec fn default_preferences() -> AppPreferencesView {
    AppPreferencesView {
        language: Language::SimplifiedChinese,
        auto_scroll: true,
        show_ascii: true,
        write_with_response: true,
        auto_reconnect: true,
        show_rx: true,
        show_read: true,
        show_tx: true,
        plot_max_points: 2_000,
        plot_channels: Seq::new(
            4,
            |i: int| plotting::idle_channel("CH"@ + text::decimal((i + 1) as nat)),
        ),
        protocol_config: protocol::default_config(),
        periodic_interval_ms: 1_000,
        scan_name_filter: Seq::empty(),
        scan_service_filter: Seq::empty(),
        scan_min_rssi: scan::NO_RSSI_LIMIT,
        layout: workspace::full_layout(),
    }
}

impl Default for AppPreferences {
    fn default() -> (r: Self)
        ensures
            r.deep_view() == default_preferences(),
    {
        AppPreferences {
            language: Language::default(),
            auto_scroll: true,
            show_ascii: true,
            write_with_response: true,
            auto_reconnect: true,
            show_rx: true,
            show_read: true,
            show_tx: true,
            plot_max_points: 2_000,
            plot_channels: plotting::default_channels(),
            protocol_config: ProtocolConfig::default(),
            periodic_interval_ms: 1_000,
            scan_name_filter: String::new(),
            scan_service_filter: String::new(),
            scan_min_rssi: -127,
            layout: WorkspaceLayout::default(),
        }
    }
}

/// What holds of the sessions at any time, see [`store::store_wf`].
#[verifier::opaque]
pub open spec fn sessions_wf(sessions: SessionStoreView) -> bool {
    store::store_wf(sessions)
}

/// What holds of the state at any time.
pub open spec fn monitor_wf(m: MonitorView) -> bool {
    sessions_wf(m.store)
}

/// The state at the start.
pub open spec fn initial_monitor(
    p: AppPreferencesView,
    presets: Seq<StoredProtocolPresetView>,
    profiles: Seq<StoredProfileView>,
    created_at: Seq<char>,
) -> MonitorView {
    MonitorView {
        connection: ConnectionPanelView {
            adapters: Seq::empty(),
            selected_adapter: 0,
            adapter_state: "Unknown"@,
            scanning: false,
            phase: ConnectionPhase::Disconnected,
            auto_reconnect: p.auto_reconnect,
            target_id: None,
            connected_id: None,
            connected_name: None,
            mtu: None,
        },
        devices: DevicePanelView {
            filter: ScanFilterView {
                name: p.scan_name_filter,
                services: p.scan_service_filter,
                min_rssi: p.scan_min_rssi,
            },
            devices: Seq::empty(),
            selected_id: None,
        },
        gatt: GattPanelView {
            snapshot: GattSnapshotView { services: Seq::empty() },
            selected_characteristic: None,
            selected_descriptor: None,
            pending: None,
        },
        store: store::fresh_store(created_at),
        workspace: WorkspacePanelView {
            name: "Untitled Workspace"@,
            path: None,
            layout: p.layout,
        },
        view: ViewPanelView {
            language: p.language,
            monitor_paused: false,
            log_filter: LogFilterView {
                text: Seq::empty(),
                show_rx: p.show_rx,
                show_read: p.show_read,
                show_tx: p.show_tx,
            },
            auto_scroll: p.auto_scroll,
            show_ascii: p.show_ascii,
        },
        tx: TxPanelView {
            tx_hex: Seq::empty(),
            descriptor_hex: Seq::empty(),
            write_with_response: p.write_with_response,
            history: Seq::empty(),
            periodic_enabled: false,
            periodic_interval_ms: at_least_u64(p.periodic_interval_ms, tx::MIN_INTERVAL_MS),
            periodic_next: None,
            periodic_sent: 0,
        },
        plot: PlotPanelView {
            channels: plot::empty_channels(
                if p.plot_channels.len() == 0 {
                    default_preferences().plot_channels
                } else {
                    p.plot_channels
                },
            ),
            max_points: if p.plot_max_points >= MIN_PLOT_POINTS {
                p.plot_max_points
            } else {
                MIN_PLOT_POINTS
            },
        },
        protocol: ProtocolPanelView {
            source: None,
            config: p.protocol_config,
            delimiter_hex: analyzer::delimiter_text(p.protocol_config.frame_mode, "0D 0A"@),
            presets,
            selected_preset: None,
            preset_name: Seq::empty(),
        },
        profiles: ProfilePanelView { profiles, selected: None, name: Seq::empty() },
        capture: CapturePanelView { last_paths: None, error: None },
        status: i18n::plain_message("等待 Bluetooth Worker"@),
        last_error: None,
    }
}

/// `value`, or `least` where that is more.
pub open spec fn at_least_u64(value: u64, least: u64) -> u64 {
    if value >= least {
        value
    } else {
        least
    }
}

/// The settings to be kept.
pub open spec fn kept_preferences(m: MonitorView) -> AppPreferencesView {
    AppPreferencesView {
        language: m.view.language,
        auto_scroll: m.view.auto_scroll,
        show_ascii: m.view.show_ascii,
        write_with_response: m.tx.write_with_response,
        auto_reconnect: m.connection.auto_reconnect,
        show_rx: m.view.log_filter.show_rx,
        show_read: m.view.log_filter.show_read,
        show_tx: m.view.log_filter.show_tx,
        plot_max_points: m.plot.max_points,
        plot_channels: Seq::new(m.plot.channels.len(), |i: int| m.plot.channels[i].config),
        protocol_config: m.protocol.config,
        periodic_interval_ms: m.tx.periodic_interval_ms,
        scan_name_filter: m.devices.filter.name,
        scan_service_filter: m.devices.filter.services,
        scan_min_rssi: m.devices.filter.min_rssi,
        layout: m.workspace.layout,
    }
}

/// The packet that an event carries.
pub open spec fn event_packet(event: BleEventView) -> Option<LogEntryView> {
    match event {
        BleEventView::Notification { characteristic, data, timestamp } => Some(
            packet(characteristic, LogDirection::Rx, data, timestamp),
        ),
        BleEventView::ReadResult { characteristic, data, timestamp } => Some(
            packet(characteristic, LogDirection::Read, data, timestamp),
        ),
        BleEventView::WriteComplete { characteristic, data, timestamp } => Some(
            packet(characteristic, LogDirection::Tx, data, timestamp),
        ),
        BleEventView::DescriptorReadResult { descriptor, data, timestamp } => Some(
            packet(descriptor_name(descriptor), LogDirection::Read, data, timestamp),
        ),
        BleEventView::DescriptorWriteComplete { descriptor, data, timestamp } => Some(
            packet(descriptor_name(descriptor), LogDirection::Tx, data, timestamp),
        ),
        _ => None,
    }
}

/// A packet of a characteristic.
pub open spec fn packet(
    key: CharacteristicKeyView,
    direction: LogDirection,
    data: Seq<u8>,
    timestamp: Seq<char>,
) -> LogEntryView {
    LogEntryView {
        timestamp,
        direction,
        service_uuid: key.service_uuid,
        characteristic_uuid: key.characteristic_uuid,
        data,
    }
}

/// How a descriptor is named in the log.
pub open spec fn descriptor_name(key: DescriptorKeyView) -> CharacteristicKeyView {
    CharacteristicKeyView {
        service_uuid: key.service_uuid,
        characteristic_uuid: key.characteristic_uuid + " / desc "@ + key.descriptor_uuid,
    }
}

/// The connection of no device.
pub open spec fn without_device(c: ConnectionPanelView) -> ConnectionPanelView {
    ConnectionPanelView { connected_id: None, connected_name: None, mtu: None, ..c }
}

/// The state after the adapters became known.
pub open spec fn after_ready(
    m: MonitorView,
    adapters: Seq<AdapterInfoView>,
    selected: usize,
) -> MonitorView {
    if selected < adapters.len() {
        MonitorView {
            connection: ConnectionPanelView {
                adapters,
                selected_adapter: selected,
                adapter_state: adapters[selected as int].state,
                ..m.connection
            },
            status: message_1("Bluetooth 已就绪：{}"@, adapters[selected as int].name),
            ..m
        }
    } else {
        MonitorView {
            connection: ConnectionPanelView { adapters, selected_adapter: selected, ..m.connection },
            status: i18n::plain_message("Bluetooth 已就绪"@),
            ..m
        }
    }
}

/// The state after another adapter was opened.
pub open spec fn after_adapter(m: MonitorView, adapter: AdapterInfoView) -> MonitorView {
    MonitorView {
        connection: without_device(
            ConnectionPanelView {
                selected_adapter: adapter.index,
                adapter_state: adapter.state,
                phase: ConnectionPhase::Disconnected,
                ..m.connection
            },
        ),
        gatt: gatt::emptied(m.gatt),
        status: message_1("已切换 Adapter：{}"@, adapter.name),
        ..m
    }
}

/// The state while a connection is attempted.
pub open spec fn after_connecting(
    m: MonitorView,
    peripheral_id: Seq<char>,
    reconnect: bool,
    attempt: u32,
) -> MonitorView {
    MonitorView {
        connection: ConnectionPanelView {
            target_id: Some(peripheral_id),
            phase: if reconnect {
                ConnectionPhase::Reconnecting
            } else {
                ConnectionPhase::Connecting
            },
            ..m.connection
        },
        last_error: None,
        status: if reconnect {
            message_2(
                "自动重连 #{attempt}：{peripheral_id}"@,
                text::decimal(attempt as nat),
                peripheral_id,
            )
        } else {
            message_1("正在连接 {peripheral_id}"@, peripheral_id)
        },
        ..m
    }
}

/// The state after a device was connected.
pub open spec fn after_connected(
    m: MonitorView,
    peripheral_id: Seq<char>,
    name: Seq<char>,
    mtu: u16,
) -> MonitorView {
    MonitorView {
        connection: ConnectionPanelView {
            phase: ConnectionPhase::Connected,
            target_id: Some(peripheral_id),
            connected_id: Some(peripheral_id),
            connected_name: Some(name),
            mtu: Some(mtu),
            ..m.connection
        },
        store: store::with_session(
            m.store,
            m.store.live as int,
            store::named_session(
                m.store.sessions[m.store.live as int],
                peripheral_id,
                Some(name),
            ),
        ),
        last_error: None,
        status: message_2("已连接 {name} · MTU {mtu}"@, name, text::decimal(mtu as nat)),
        ..m
    }
}

/// The state after the device went away.
pub open spec fn after_disconnected(m: MonitorView, unexpected: bool) -> MonitorView {
    if unexpected {
        MonitorView {
            connection: ConnectionPanelView {
                connected_id: None,
                mtu: None,
                phase: if m.connection.auto_reconnect {
                    ConnectionPhase::Reconnecting
                } else {
                    ConnectionPhase::Disconnected
                },
                ..m.connection
            },
            status: i18n::plain_message("连接意外断开"@),
            ..m
        }
    } else {
        MonitorView {
            connection: without_device(
                ConnectionPanelView {
                    phase: ConnectionPhase::Disconnected,
                    target_id: None,
                    ..m.connection
                },
            ),
            gatt: gatt::emptied(m.gatt),
            status: i18n::plain_message("已断开"@),
            ..m
        }
    }
}

/// The state after a packet for the live session.
pub open spec fn after_packet(m: MonitorView, entry: LogEntryView) -> MonitorView {
    MonitorView {
        store: store::store_ingested(
            m.store,
            m.store.live,
            entry,
            m.protocol.source,
            m.protocol.config,
            m.view.monitor_paused,
        ),
        ..m
    }
}

/// The state after an event. `delay` is the pause before a reconnect in seconds, with one
/// decimal.
pub open spec fn handled(m: MonitorView, event: BleEventView, delay: Seq<char>) -> MonitorView {
    match event {
        BleEventView::Ready { adapters, selected_adapter } => after_ready(
            m,
            adapters,
            selected_adapter,
        ),
        BleEventView::AdapterSelected { adapter } => after_adapter(m, adapter),
        BleEventView::AdapterState { state } => MonitorView {
            connection: ConnectionPanelView { adapter_state: state, ..m.connection },
            ..m
        },
        BleEventView::DevicesCleared => MonitorView {
            devices: DevicePanelView { devices: Seq::empty(), selected_id: None, ..m.devices },
            ..m
        },
        BleEventView::ScanStarted => MonitorView {
            connection: ConnectionPanelView { scanning: true, ..m.connection },
            status: i18n::plain_message("正在实时扫描 BLE 设备…"@),
            last_error: None,
            ..m
        },
        BleEventView::ScanStopped => MonitorView {
            connection: ConnectionPanelView { scanning: false, ..m.connection },
            status: message_1("扫描已停止：{} 个设备"@, text::decimal(m.devices.devices.len())),
            ..m
        },
        BleEventView::DeviceUpsert { device } => MonitorView {
            devices: devices::with_device(m.devices, device),
            ..m
        },
        BleEventView::DeviceRssi { peripheral_id, rssi } => MonitorView {
            devices: devices::with_rssi(m.devices, peripheral_id, rssi),
            ..m
        },
        BleEventView::Connecting { peripheral_id, reconnect, attempt } => after_connecting(
            m,
            peripheral_id,
            reconnect,
            attempt,
        ),
        BleEventView::Connected { peripheral_id, name, mtu } => after_connected(
            m,
            peripheral_id,
            name,
            mtu,
        ),
        BleEventView::Disconnected { unexpected, .. } => after_disconnected(m, unexpected),
        BleEventView::ReconnectScheduled { attempt, .. } => MonitorView {
            connection: ConnectionPanelView { phase: ConnectionPhase::Reconnecting, ..m.connection },
            status: message_2(
                "将在 {:.1}s 后进行第 {attempt} 次重连"@,
                delay,
                text::decimal(attempt as nat),
            ),
            ..m
        },
        BleEventView::ReconnectFailed { attempt, error } => MonitorView {
            connection: ConnectionPanelView { phase: ConnectionPhase::Reconnecting, ..m.connection },
            last_error: Some(
                message_2(
                    "重连 #{attempt} 失败：{error}"@,
                    text::decimal(attempt as nat),
                    error,
                ),
            ),
            ..m
        },
        BleEventView::GattDiscovered { snapshot } => MonitorView {
            gatt: gatt::with_snapshot(m.gatt, snapshot),
            status: message_1("GATT：{} 个 Service"@, text::decimal(snapshot.services.len())),
            ..m
        },
        BleEventView::Subscribed { characteristic } => MonitorView {
            status: message_1("已订阅 {}"@, characteristic.characteristic_uuid),
            ..m
        },
        BleEventView::Status(status) => MonitorView { status, ..m },
        BleEventView::Error(error) => MonitorView {
            last_error: Some(LocalizedTextView::Diagnostic(error)),
            ..m
        },
        BleEventView::Fatal(error) => MonitorView {
            connection: ConnectionPanelView {
                scanning: false,
                phase: ConnectionPhase::Disconnected,
                ..m.connection
            },
            status: i18n::plain_message("Bluetooth Worker 已停止"@),
            last_error: Some(LocalizedTextView::Diagnostic(error)),
            ..m
        },
        _ => match event_packet(event) {
            Some(entry) => after_packet(m, entry),
            None => m,
        },
    }
}

/// [`handled`], kept folded.
#[verifier::opaque]
spec fn step_of(m: MonitorView, event: BleEventView, delay: Seq<char>) -> MonitorView {
    handled(m, event, delay)
}

proof fn step_is_handled(m: MonitorView, event: BleEventView, delay: Seq<char>)
    ensures
        step_of(m, event, delay) == handled(m, event, delay),
{
    reveal(step_of);
}

proof fn packet_step(m: MonitorView, event: BleEventView, delay: Seq<char>, entry: LogEntryView)
    requires
        event_packet(event) == Some(entry),
    ensures
        step_of(m, event, delay) == after_packet(m, entry),
{
    reveal(step_of);
}

/// What an event asks for besides the change of the state.
#[derive(Debug)]
pub struct Effects {
    /// A command for the worker.
    pub command: Option<BleCommand>,
    /// A packet of the connected device, to be written to the running capture.
    pub packet: Option<LogEntry>,
    /// Whether the packet goes to the plot channels.
    pub plotted: bool,
}

/// Whether the counters of the live session can take the packet of an event.
pub open spec fn event_fits(m: MonitorView, event: BleEventView) -> bool {
    event_packet(event) matches Some(entry) ==> log::has_room(
        m.store.sessions[m.store.live as int].stats,
        entry.direction,
        entry.data.len(),
    )
}

/// The state with other sessions and without the samples of the plot.
pub open spec fn with_store(m: MonitorView, sessions: SessionStoreView) -> MonitorView {
    MonitorView { store: sessions, plot: plot::samples_cleared(m.plot), ..m }
}

/// The name of the selected device.
pub open spec fn selected_name(m: MonitorView) -> Option<Seq<char>> {
    match devices::chosen_device(m.devices) {
        Some(device) => Some(device.name),
        None => None,
    }
}

/// Whether the selected device can be connected.
pub open spec fn connectable(m: MonitorView) -> bool {
    m.connection.phase != ConnectionPhase::Connecting && m.connection.connected_id is None
        && m.devices.selected_id is Some
}

/// The name of the profile that is saved.
pub open spec fn profile_title(m: MonitorView) -> Seq<char> {
    let given = text::trim(m.profiles.name);
    if given.len() > 0 {
        given
    } else {
        match devices::chosen_device(m.devices) {
            Some(device) => if device.name == "(unknown)"@ {
                "BLE Profile"@
            } else {
                device.name
            },
            None => "BLE Profile"@,
        }
    }
}

/// The profile of the settings in force.
pub open spec fn current_settings(m: MonitorView) -> DeviceProfileView {
    DeviceProfileView {
        name: profile_title(m),
        device_id: match devices::chosen_device(m.devices) {
            Some(device) => Some(device.id),
            None => None,
        },
        address: match devices::chosen_device(m.devices) {
            Some(device) => Some(device.address),
            None => None,
        },
        characteristic: match m.gatt.selected_characteristic {
            Some(characteristic) => Some(characteristic.key),
            None => None,
        },
        auto_reconnect: m.connection.auto_reconnect,
        write_with_response: m.tx.write_with_response,
        tx_hex: m.tx.tx_hex,
        protocol_source: m.protocol.source,
        protocol: m.protocol.config,
        plot_channels: Seq::new(m.plot.channels.len(), |i: int| m.plot.channels[i].config),
        periodic_interval_ms: m.tx.periodic_interval_ms,
        tx_history: m.tx.history,
        scan_name_filter: m.devices.filter.name,
        scan_service_filter: m.devices.filter.services,
        scan_min_rssi: m.devices.filter.min_rssi,
        saved_at: Seq::empty(),
    }
}

/// The state under a profile.
pub open spec fn under_profile(m: MonitorView, index: usize, p: DeviceProfileView) -> MonitorView {
    let found = match p.characteristic {
        Some(key) => gatt::in_services(m.gatt.snapshot.services, key),
        None => None,
    };
    MonitorView {
        connection: ConnectionPanelView { auto_reconnect: p.auto_reconnect, ..m.connection },
        devices: devices::with_selection(
            DevicePanelView {
                filter: ScanFilterView {
                    name: p.scan_name_filter,
                    services: p.scan_service_filter,
                    min_rssi: p.scan_min_rssi,
                },
                ..m.devices
            },
            p.device_id,
            p.address,
        ),
        gatt: match found {
            Some(characteristic) => GattPanelView {
                selected_characteristic: Some(characteristic),
                pending: None,
                ..m.gatt
            },
            None => GattPanelView { pending: p.characteristic, ..m.gatt },
        },
        store: store::protocol_cleared(m.store),
        tx: TxPanelView {
            tx_hex: p.tx_hex,
            write_with_response: p.write_with_response,
            periodic_interval_ms: at_least_u64(p.periodic_interval_ms, tx::MIN_INTERVAL_MS),
            history: if p.tx_history.len() > tx::MAX_TX_HISTORY {
                p.tx_history.take(tx::MAX_TX_HISTORY as int)
            } else {
                p.tx_history
            },
            ..m.tx
        },
        plot: if p.plot_channels.len() > 0 {
            PlotPanelView { channels: plot::empty_channels(p.plot_channels), ..m.plot }
        } else {
            m.plot
        },
        protocol: ProtocolPanelView {
            source: p.protocol_source,
            config: p.protocol,
            ..m.protocol
        },
        profiles: ProfilePanelView { selected: Some(index), name: p.name, ..m.profiles },
        status: message_1("已加载 Profile：{}"@, p.name),
        ..m
    }
}

/// What a workspace file holds of the state.
pub open spec fn snapshot_of(m: MonitorView) -> WorkspaceFileView {
    WorkspaceFileView {
        version: workspace::WORKSPACE_VERSION,
        name: m.workspace.name,
        saved_at: Seq::empty(),
        active_session_id: Some(m.store.sessions[m.store.active as int].meta.id),
        sessions: Seq::new(m.store.sessions.len(), |i: int| m.store.sessions[i].meta),
        layout: m.workspace.layout,
    }
}

/// The state after a workspace was opened.
pub open spec fn under_workspace(
    m: MonitorView,
    path: PathBuf,
    shown_path: Seq<char>,
    name: Seq<char>,
    saved_at: Seq<char>,
    layout: WorkspaceLayout,
    sessions: SessionStoreView,
) -> MonitorView {
    MonitorView {
        workspace: WorkspacePanelView { name, path: Some(path), layout },
        status: if saved_at.len() == 0 {
            message_1("Workspace 已打开：{}"@, shown_path)
        } else {
            message_2("Workspace 已打开：{} · saved {saved_at}"@, shown_path, saved_at)
        },
        ..with_store(m, sessions)
    }
}

fn entry_from(
    key: CharacteristicKey,
    direction: LogDirection,
    data: Vec<u8>,
    timestamp: String,
) -> (r: LogEntry)
    ensures
        r.deep_view() == packet(key.deep_view(), direction, data@, timestamp@),
{
    LogEntry {
        timestamp,
        direction,
        service_uuid: key.service_uuid,
        characteristic_uuid: key.characteristic_uuid,
        data,
    }
}

fn descriptor_key(key: crate::ble::model::DescriptorKey) -> (r: CharacteristicKey)
    ensures
        r.deep_view() == descriptor_name(key.deep_view()),
{
    let mut characteristic_uuid = text::joined(key.characteristic_uuid.as_str(), " / desc ");
    characteristic_uuid.append(key.descriptor_uuid.as_str());
    CharacteristicKey { service_uuid: key.service_uuid, characteristic_uuid }
}

fn no_effects() -> (r: Effects)
    ensures
        r.command is None && r.packet is None && !r.plotted,
{
    Effects { command: None, packet: None, plotted: false }
}

impl Monitor {
    /// The state at the start.
    pub fn new(
        preferences: AppPreferences,
        presets: Vec<StoredProtocolPreset>,
        profiles: Vec<StoredProfile>,
        created_at: String,
    ) -> (r: Self)
        ensures
            r.deep_view() == initial_monitor(
                preferences.deep_view(),
                presets.deep_view(),
                profiles.deep_view(),
                created_at@,
            ),
            monitor_wf(r.deep_view()),
    {
        proof {
            reveal(sessions_wf);
        }
        let fallback = "0D 0A".to_owned();
        let delimiter_hex = analyzer::delimiter_of(
            &preferences.protocol_config.frame_mode,
            &fallback,
        );
        let channels = if preferences.plot_channels.len() == 0 {
            plot::channels_from(&plotting::default_channels())
        } else {
            plot::channels_from(&preferences.plot_channels)
        };
        let connection = ConnectionPanel {
            adapters: Vec::new(),
            selected_adapter: 0,
            adapter_state: "Unknown".to_owned(),
            scanning: false,
            phase: ConnectionPhase::Disconnected,
            auto_reconnect: preferences.auto_reconnect,
            target_id: None,
            connected_id: None,
            connected_name: None,
            mtu: None,
        };
        assert(connection.deep_view().adapters =~= Seq::empty());
        let devices = DevicePanel {
            filter: ScanFilter {
                name: preferences.scan_name_filter,
                services: preferences.scan_service_filter,
                min_rssi: preferences.scan_min_rssi,
            },
            devices: Vec::new(),
            selected_id: None,
        };
        assert(devices.deep_view().devices =~= Seq::empty());
        let tx = TxPanel {
            tx_hex: String::new(),
            descriptor_hex: String::new(),
            write_with_response: preferences.write_with_response,
            history: VecDeque::new(),
            periodic_enabled: false,
            periodic_interval_ms: if preferences.periodic_interval_ms >= tx::MIN_INTERVAL_MS {
                preferences.periodic_interval_ms
            } else {
                tx::MIN_INTERVAL_MS
            },
            periodic_next: None,
            periodic_sent: 0,
        };
        assert(tx.deep_view().history =~= Seq::empty());
        Monitor {
            connection,
            devices,
            gatt: GattPanel::new(),
            store: SessionStore::new(created_at),
            workspace: WorkspacePanel {
                name: "Untitled Workspace".to_owned(),
                path: None,
                layout: preferences.layout,
            },
            view: ViewPanel {
                language: preferences.language,
                monitor_paused: false,
                log_filter: LogFilter {
                    text: String::new(),
                    show_rx: preferences.show_rx,
                    show_read: preferences.show_read,
                    show_tx: preferences.show_tx,
                },
                auto_scroll: preferences.auto_scroll,
                show_ascii: preferences.show_ascii,
            },
            tx,
            plot: PlotPanel {
                channels,
                max_points: if preferences.plot_max_points >= MIN_PLOT_POINTS {
                    preferences.plot_max_points
                } else {
                    MIN_PLOT_POINTS
                },
            },
            protocol: ProtocolPanel {
                source: None,
                config: preferences.protocol_config,
                delimiter_hex,
                presets,
                selected_preset: None,
                preset_name: String::new(),
            },
            profiles: ProfilePanel { profiles, selected: None, name: String::new() },
            capture: CapturePanel { last_paths: None, error: None },
            status: LocalizedText::plain("等待 Bluetooth Worker"),
            last_error: None,
        }
    }

    /// The settings to be kept.
    pub fn preferences(&self) -> (r: AppPreferences)
        ensures
            r.deep_view() == kept_preferences(self.deep_view()),
    {
        AppPreferences {
            language: self.view.language,
            auto_scroll: self.view.auto_scroll,
            show_ascii: self.view.show_ascii,
            write_with_response: self.tx.write_with_response,
            auto_reconnect: self.connection.auto_reconnect,
            show_rx: self.view.log_filter.show_rx,
            show_read: self.view.log_filter.show_read,
            show_tx: self.view.log_filter.show_tx,
            plot_max_points: self.plot.max_points,
            plot_channels: self.plot.configs(),
            protocol_config: self.protocol.config.clone(),
            periodic_interval_ms: self.tx.periodic_interval_ms,
            scan_name_filter: self.devices.filter.name.clone(),
            scan_service_filter: self.devices.filter.services.clone(),
            scan_min_rssi: self.devices.filter.min_rssi,
            layout: self.workspace.layout,
        }
    }

    /// Whether the counters of the live session can take the packet of an event.
    pub fn can_handle(&self, event: &BleEvent) -> (r: bool)
        requires
            monitor_wf(self.deep_view()),
        ensures
            r == event_fits(self.deep_view(), event.deep_view()),
    {
        proof {
            reveal(sessions_wf);
        }
        let stats = self.store.sessions[self.store.live].stats;
        assert(self.deep_view().store.sessions[self.store.live as int].stats == stats);
        match event {
            BleEvent::Notification { data, .. } => stats.can_record(LogDirection::Rx, data.len()),
            BleEvent::ReadResult { data, .. } => stats.can_record(LogDirection::Read, data.len()),
            BleEvent::WriteComplete { data, .. } => stats.can_record(LogDirection::Tx, data.len()),
            BleEvent::DescriptorReadResult { data, .. } => stats.can_record(
                LogDirection::Read,
                data.len(),
            ),
            BleEvent::DescriptorWriteComplete { data, .. } => stats.can_record(
                LogDirection::Tx,
                data.len(),
            ),
            _ => true,
        }
    }

    /// Takes an event of the worker. `delay` is the pause before a reconnect in seconds, with one
    /// decimal.
    pub fn handle_event(&mut self, event: BleEvent, delay: String) -> (r: Effects)
        requires
            monitor_wf(old(self).deep_view()),
            event_fits(old(self).deep_view(), event.deep_view()),
        ensures
            final(self).deep_view() == handled(old(self).deep_view(), event.deep_view(), delay@),
            monitor_wf(final(self).deep_view()),
            r.command.deep_view() == (if event.deep_view() is GattDiscovered {
                Some(BleCommandView::SubscribeAll)
            } else {
                None
            }),
            r.packet.deep_view() == event_packet(event.deep_view()),
            r.plotted == (event.deep_view() is Notification && old(self).store.live == old(
                self,
            ).store.active),
    {
        let ghost m = self.deep_view();
        let ghost given = event.deep_view();
        let ghost pause = delay@;
        let effects = match event {
            BleEvent::Notification { characteristic, data, timestamp } => {
                let entry = entry_from(characteristic, LogDirection::Rx, data, timestamp);
                proof {
                    packet_step(m, given, pause, entry.deep_view());
                }
                self.ingest_live_log(entry)
            },
            BleEvent::ReadResult { characteristic, data, timestamp } => {
                let entry = entry_from(characteristic, LogDirection::Read, data, timestamp);
                proof {
                    packet_step(m, given, pause, entry.deep_view());
                }
                self.ingest_live_log(entry)
            },
            BleEvent::WriteComplete { characteristic, data, timestamp } => {
                let entry = entry_from(characteristic, LogDirection::Tx, data, timestamp);
                proof {
                    packet_step(m, given, pause, entry.deep_view());
                }
                self.ingest_live_log(entry)
            },
            BleEvent::DescriptorReadResult { descriptor, data, timestamp } => {
                let key = descriptor_key(descriptor);
                let entry = entry_from(key, LogDirection::Read, data, timestamp);
                proof {
                    packet_step(m, given, pause, entry.deep_view());
                }
                self.ingest_live_log(entry)
            },
            BleEvent::DescriptorWriteComplete { descriptor, data, timestamp } => {
                let key = descriptor_key(descriptor);
                let entry = entry_from(key, LogDirection::Tx, data, timestamp);
                proof {
                    packet_step(m, given, pause, entry.deep_view());
                }
                self.ingest_live_log(entry)
            },
            BleEvent::GattDiscovered { snapshot } => {
                self.on_gatt(snapshot, Ghost(pause));
                Effects { command: Some(BleCommand::SubscribeAll), packet: None, plotted: false }
            },
            other => {
                self.on_notice(other, delay);
                no_effects()
            },
        };
        proof {
            step_is_handled(m, given, pause);
        }
        effects
    }

    fn on_notice(&mut self, event: BleEvent, delay: String)
        requires
            monitor_wf(old(self).deep_view()),
            event_packet(event.deep_view()) is None,
        ensures
            final(self).deep_view() == step_of(old(self).deep_view(), event.deep_view(), delay@),
            monitor_wf(final(self).deep_view()),
    {
        let ghost pause = delay@;
        match event {
            BleEvent::Ready { adapters, selected_adapter } => {
                self.on_ready(adapters, selected_adapter, Ghost(pause));
            },
            BleEvent::AdapterSelected { adapter } => {
                self.on_adapter_selected(adapter, Ghost(pause));
            },
            BleEvent::AdapterState { state } => {
                self.on_adapter_state(state, Ghost(pause));
            },
            BleEvent::DevicesCleared => {
                self.on_devices_cleared(Ghost(pause));
            },
            BleEvent::ScanStarted => {
                self.on_scan_started(Ghost(pause));
            },
            BleEvent::ScanStopped => {
                self.on_scan_stopped(Ghost(pause));
            },
            BleEvent::DeviceUpsert { device } => {
                self.on_device(device, Ghost(pause));
            },
            BleEvent::DeviceRssi { peripheral_id, rssi } => {
                self.on_rssi(peripheral_id, rssi, Ghost(pause));
            },
            BleEvent::Connecting { peripheral_id, reconnect, attempt } => {
                self.on_connecting(peripheral_id, reconnect, attempt, Ghost(pause));
            },
            BleEvent::Connected { peripheral_id, name, mtu } => {
                self.on_connected(peripheral_id, name, mtu, Ghost(pause));
            },
            BleEvent::Disconnected { peripheral_id, unexpected } => {
                self.on_disconnected(peripheral_id, unexpected, Ghost(pause));
            },
            BleEvent::ReconnectScheduled { attempt, delay_ms } => {
                self.on_reconnect_scheduled(attempt, delay_ms, delay);
            },
            BleEvent::ReconnectFailed { attempt, error } => {
                self.on_reconnect_failed(attempt, error, Ghost(pause));
            },
            BleEvent::GattDiscovered { snapshot } => {
                self.on_gatt(snapshot, Ghost(pause));
            },
            BleEvent::Subscribed { characteristic } => {
                self.on_subscribed(characteristic, Ghost(pause));
            },
            BleEvent::Status(status) => {
                self.on_status(status, Ghost(pause));
            },
            BleEvent::Error(error) => {
                self.on_error(error, Ghost(pause));
            },
            BleEvent::Fatal(error) => {
                self.on_fatal(error, Ghost(pause));
            },
            _ => {},
        }
    }

    fn on_adapter_state(&mut self, state: String, Ghost(delay): Ghost<Seq<char>>)
        requires
            monitor_wf(old(self).deep_view()),
        ensures
            final(self).deep_view() == step_of(old(self).deep_view(), (BleEventView::AdapterState {
                state: state@,
            }), delay),
            monitor_wf(final(self).deep_view()),
    {
        proof {
            reveal(step_of);
        }
        self.connection.adapter_state = state;
    }

    fn on_devices_cleared(&mut self, Ghost(delay): Ghost<Seq<char>>)
        requires
            monitor_wf(old(self).deep_view()),
        ensures
            final(self).deep_view() == step_of(old(self).deep_view(), BleEventView::DevicesCleared, delay),
            monitor_wf(final(self).deep_view()),
    {
        proof {
            reveal(step_of);
        }
        self.devices.clear();
    }

    fn on_scan_started(&mut self, Ghost(delay): Ghost<Seq<char>>)
        requires
            monitor_wf(old(self).deep_view()),
        ensures
            final(self).deep_view() == step_of(old(self).deep_view(), BleEventView::ScanStarted, delay),
            monitor_wf(final(self).deep_view()),
    {
        proof {
            reveal(step_of);
        }
        self.connection.scanning = true;
        self.status = LocalizedText::plain("正在实时扫描 BLE 设备…");
        self.last_error = None;
    }

    fn on_scan_stopped(&mut self, Ghost(delay): Ghost<Seq<char>>)
        requires
            monitor_wf(old(self).deep_view()),
        ensures
            final(self).deep_view() == step_of(old(self).deep_view(), BleEventView::ScanStopped, delay),
            monitor_wf(final(self).deep_view()),
    {
        proof {
            reveal(step_of);
        }
        self.connection.scanning = false;
        let count = text::decimal_text(self.devices.devices.len() as u64);
        self.status = LocalizedText::with_one("扫描已停止：{} 个设备", count);
    }

    fn on_device(&mut self, device: DeviceInfo, Ghost(delay): Ghost<Seq<char>>)
        requires
            monitor_wf(old(self).deep_view()),
        ensures
            final(self).deep_view() == step_of(old(self).deep_view(), (BleEventView::DeviceUpsert {
                device: device.deep_view(),
            }), delay),
            monitor_wf(final(self).deep_view()),
    {
        proof {
            reveal(step_of);
        }
        self.devices.upsert_device(device);
    }

    fn on_rssi(&mut self, peripheral_id: String, rssi: i16, Ghost(delay): Ghost<Seq<char>>)
        requires
            monitor_wf(old(self).deep_view()),
        ensures
            final(self).deep_view() == step_of(old(self).deep_view(), (BleEventView::DeviceRssi {
                peripheral_id: peripheral_id@,
                rssi,
            }), delay),
            monitor_wf(final(self).deep_view()),
    {
        proof {
            reveal(step_of);
        }
        self.devices.update_rssi(&peripheral_id, rssi);
    }

    fn on_reconnect_scheduled(&mut self, attempt: u32, delay_ms: u64, delay: String)
        requires
            monitor_wf(old(self).deep_view()),
        ensures
            final(self).deep_view() == step_of(
                old(self).deep_view(),
                (BleEventView::ReconnectScheduled { attempt, delay_ms }),
                delay@,
            ),
            monitor_wf(final(self).deep_view()),
    {
        proof {
            reveal(step_of);
        }
        self.connection.phase = ConnectionPhase::Reconnecting;
        self.status = LocalizedText::with_two(
            "将在 {:.1}s 后进行第 {attempt} 次重连",
            delay,
            text::decimal_text(attempt as u64),
        );
    }

    fn on_reconnect_failed(&mut self, attempt: u32, error: String, Ghost(delay): Ghost<Seq<char>>)
        requires
            monitor_wf(old(self).deep_view()),
        ensures
            final(self).deep_view() == step_of(old(self).deep_view(), (BleEventView::ReconnectFailed {
                attempt,
                error: error@,
            }), delay),
            monitor_wf(final(self).deep_view()),
    {
        proof {
            reveal(step_of);
        }
        self.connection.phase = ConnectionPhase::Reconnecting;
        self.last_error = Some(
            LocalizedText::with_two(
                "重连 #{attempt} 失败：{error}",
                text::decimal_text(attempt as u64),
                error,
            ),
        );
    }

    fn on_gatt(&mut self, snapshot: GattSnapshot, Ghost(delay): Ghost<Seq<char>>)
        requires
            monitor_wf(old(self).deep_view()),
        ensures
            final(self).deep_view() == step_of(old(self).deep_view(), (BleEventView::GattDiscovered {
                snapshot: snapshot.deep_view(),
            }), delay),
            monitor_wf(final(self).deep_view()),
    {
        proof {
            reveal(step_of);
        }
        let count = text::decimal_text(snapshot.services.len() as u64);
        self.gatt.take_snapshot(snapshot);
        self.status = LocalizedText::with_one("GATT：{} 个 Service", count);
    }

    fn on_subscribed(&mut self, characteristic: CharacteristicKey, Ghost(delay): Ghost<Seq<char>>)
        requires
            monitor_wf(old(self).deep_view()),
        ensures
            final(self).deep_view() == step_of(old(self).deep_view(), (BleEventView::Subscribed {
                characteristic: characteristic.deep_view(),
            }), delay),
            monitor_wf(final(self).deep_view()),
    {
        proof {
            reveal(step_of);
        }
        self.status = LocalizedText::with_one("已订阅 {}", characteristic.characteristic_uuid);
    }

    fn on_status(&mut self, status: LocalizedText, Ghost(delay): Ghost<Seq<char>>)
        requires
            monitor_wf(old(self).deep_view()),
        ensures
            final(self).deep_view() == step_of(old(self).deep_view(), BleEventView::Status(
                status.deep_view(),
            ), delay),
            monitor_wf(final(self).deep_view()),
    {
        proof {
            reveal(step_of);
        }
        self.status = status;
    }

    fn on_error(&mut self, error: String, Ghost(delay): Ghost<Seq<char>>)
        requires
            monitor_wf(old(self).deep_view()),
        ensures
            final(self).deep_view() == step_of(old(self).deep_view(), BleEventView::Error(error@), delay),
            monitor_wf(final(self).deep_view()),
    {
        proof {
            reveal(step_of);
        }
        self.last_error = Some(LocalizedText::Diagnostic(error));
    }

    fn on_fatal(&mut self, error: String, Ghost(delay): Ghost<Seq<char>>)
        requires
            monitor_wf(old(self).deep_view()),
        ensures
            final(self).deep_view() == step_of(old(self).deep_view(), BleEventView::Fatal(error@), delay),
            monitor_wf(final(self).deep_view()),
    {
        proof {
            reveal(step_of);
        }
        self.connection.scanning = false;
        self.connection.phase = ConnectionPhase::Disconnected;
        self.status = LocalizedText::plain("Bluetooth Worker 已停止");
        self.last_error = Some(LocalizedText::Diagnostic(error));
    }

    fn on_ready(
        &mut self,
        adapters: Vec<AdapterInfo>,
        selected: usize,
        Ghost(delay): Ghost<Seq<char>>,
    )
        requires
            monitor_wf(old(self).deep_view()),
        ensures
            final(self).deep_view() == step_of(old(self).deep_view(), (BleEventView::Ready {
                adapters: adapters.deep_view(),
                selected_adapter: selected,
            }), delay),
            monitor_wf(final(self).deep_view()),
    {
        proof {
            reveal(step_of);
        }
        if selected < adapters.len() {
            assert(adapters.deep_view()[selected as int]
                == adapters@[selected as int].deep_view());
            self.connection.adapter_state = adapters[selected].state.clone();
            self.status = LocalizedText::with_one(
                "Bluetooth 已就绪：{}",
                adapters[selected].name.clone(),
            );
        } else {
            self.status = LocalizedText::plain("Bluetooth 已就绪");
        }
        self.connection.adapters = adapters;
        self.connection.selected_adapter = selected;
    }

    fn on_adapter_selected(
        &mut self,
        adapter: AdapterInfo,
        Ghost(delay): Ghost<Seq<char>>,
    )
        requires
            monitor_wf(old(self).deep_view()),
        ensures
            final(self).deep_view() == step_of(old(self).deep_view(), (BleEventView::AdapterSelected {
                adapter: adapter.deep_view(),
            }), delay),
            monitor_wf(final(self).deep_view()),
    {
        proof {
            reveal(step_of);
        }
        self.connection.selected_adapter = adapter.index;
        self.connection.adapter_state = adapter.state;
        self.status = LocalizedText::with_one("已切换 Adapter：{}", adapter.name);
        self.connection.phase = ConnectionPhase::Disconnected;
        self.reset_connection_view();
    }

    fn reset_connection_view(&mut self)
        ensures
            final(self).deep_view() == (MonitorView {
                connection: without_device(old(self).deep_view().connection),
                gatt: gatt::emptied(old(self).deep_view().gatt),
                ..old(self).deep_view()
            }),
    {
        self.connection.connected_id = None;
        self.connection.connected_name = None;
        self.connection.mtu = None;
        self.gatt.clear();
    }

    fn on_connecting(
        &mut self,
        peripheral_id: String,
        reconnect: bool,
        attempt: u32,
        Ghost(delay): Ghost<Seq<char>>,
    )
        requires
            monitor_wf(old(self).deep_view()),
        ensures
            final(self).deep_view() == step_of(old(self).deep_view(), (BleEventView::Connecting {
                peripheral_id: peripheral_id@,
                reconnect,
                attempt,
            }), delay),
            monitor_wf(final(self).deep_view()),
    {
        proof {
            reveal(step_of);
        }
        self.connection.target_id = Some(peripheral_id.clone());
        self.last_error = None;
        if reconnect {
            self.connection.phase = ConnectionPhase::Reconnecting;
            self.status = LocalizedText::with_two(
                "自动重连 #{attempt}：{peripheral_id}",
                text::decimal_text(attempt as u64),
                peripheral_id,
            );
        } else {
            self.connection.phase = ConnectionPhase::Connecting;
            self.status = LocalizedText::with_one("正在连接 {peripheral_id}", peripheral_id);
        }
    }

    fn on_connected(
        &mut self,
        peripheral_id: String,
        name: String,
        mtu: u16,
        Ghost(delay): Ghost<Seq<char>>,
    )
        requires
            monitor_wf(old(self).deep_view()),
        ensures
            final(self).deep_view() == step_of(old(self).deep_view(), (BleEventView::Connected {
                peripheral_id: peripheral_id@,
                name: name@,
                mtu,
            }), delay),
            monitor_wf(final(self).deep_view()),
    {
        proof {
            reveal(step_of);
            reveal(sessions_wf);
        }
        self.connection.phase = ConnectionPhase::Connected;
        self.connection.target_id = Some(peripheral_id.clone());
        self.connection.connected_id = Some(peripheral_id.clone());
        self.connection.connected_name = Some(name.clone());
        self.connection.mtu = Some(mtu);
        self.last_error = None;
        self.status = LocalizedText::with_two(
            "已连接 {name} · MTU {mtu}",
            name.clone(),
            text::decimal_text(mtu as u64),
        );
        self.store.name_live(peripheral_id, name);
    }

    fn on_disconnected(
        &mut self,
        peripheral_id: Option<String>,
        unexpected: bool,
        Ghost(delay): Ghost<Seq<char>>,
    )
        requires
            monitor_wf(old(self).deep_view()),
        ensures
            final(self).deep_view() == step_of(old(self).deep_view(), (BleEventView::Disconnected {
                peripheral_id: peripheral_id.deep_view(),
                unexpected,
            }), delay),
            monitor_wf(final(self).deep_view()),
    {
        proof {
            reveal(step_of);
        }
        self.connection.connected_id = None;
        self.connection.mtu = None;
        if unexpected {
            self.connection.phase = if self.connection.auto_reconnect {
                ConnectionPhase::Reconnecting
            } else {
                ConnectionPhase::Disconnected
            };
            self.status = LocalizedText::plain("连接意外断开");
        } else {
            self.connection.phase = ConnectionPhase::Disconnected;
            self.connection.target_id = None;
            self.reset_connection_view();
            self.status = LocalizedText::plain("已断开");
        }
    }

    fn ingest_live_log(&mut self, entry: LogEntry) -> (r: Effects)
        requires
            monitor_wf(old(self).deep_view()),
            log::has_room(
                old(self).deep_view().store.sessions[old(self).store.live as int].stats,
                entry.direction,
                entry.data@.len(),
            ),
        ensures
            final(self).deep_view() == after_packet(old(self).deep_view(), entry.deep_view()),
            monitor_wf(final(self).deep_view()),
            r.command is None,
            r.packet.deep_view() == Some(entry.deep_view()),
            r.plotted == (entry.direction == LogDirection::Rx && old(self).store.live == old(
                self,
            ).store.active),
    {
        proof {
            reveal(sessions_wf);
        }
        let plotted = entry.direction == LogDirection::Rx && self.store.live == self.store.active;
        let copy = entry.clone();
        let index: usize = self.store.live;
        self.ingest_log_inner(index, entry);
        Effects { command: None, packet: Some(copy), plotted }
    }

    fn ingest_log_inner(&mut self, index: usize, entry: LogEntry)
        requires
            monitor_wf(old(self).deep_view()),
            index < old(self).store.sessions@.len() ==> log::has_room(
                old(self).store.sessions@[index as int].stats,
                entry.direction,
                entry.data@.len(),
            ),
        ensures
            final(self).deep_view() == (MonitorView {
                store: store::store_ingested(
                    old(self).deep_view().store,
                    index,
                    entry.deep_view(),
                    old(self).deep_view().protocol.source,
                    old(self).deep_view().protocol.config,
                    old(self).view.monitor_paused,
                ),
                ..old(self).deep_view()
            }),
            monitor_wf(final(self).deep_view()),
    {
        proof {
            reveal(sessions_wf);
        }
        self.store.ingest(
            index,
            entry,
            &self.protocol.source,
            &self.protocol.config,
            self.view.monitor_paused,
        );
    }

    /// Takes a record that the replay of the shown session handed out. It is not captured.
    /// Returns the packet for the plot channels; a record without a known direction gives none.
    pub fn ingest_replay_record(&mut self, record: ReplayRecord) -> (r: Option<LogEntry>)
        requires
            monitor_wf(old(self).deep_view()),
            log::direction_named(record.direction@) matches Some(direction) ==> log::has_room(
                old(self).deep_view().store.sessions[old(self).store.active as int].stats,
                direction,
                record.data@.len(),
            ),
        ensures
            match log::direction_named(record.direction@) {
                Some(direction) => {
                    let entry = session::entry_of(record.deep_view(), direction);
                    &&& r.deep_view() == Some(entry)
                    &&& final(self).deep_view() == (MonitorView {
                        store: store::store_ingested(
                            old(self).deep_view().store,
                            old(self).store.active,
                            entry,
                            old(self).deep_view().protocol.source,
                            old(self).deep_view().protocol.config,
                            old(self).view.monitor_paused,
                        ),
                        ..old(self).deep_view()
                    })
                },
                None => r is None && final(self).deep_view() == old(self).deep_view(),
            },
            monitor_wf(final(self).deep_view()),
    {
        proof {
            reveal(sessions_wf);
        }
        match session::entry_from_record(record) {
            Some(entry) => {
                let copy = entry.clone();
                let index: usize = self.store.active;
                self.ingest_log_inner(index, entry);
                Some(copy)
            },
            None => None,
        }
    }

    /// Notes that the worker is gone.
    pub fn worker_stopped(&mut self)
        ensures
            final(self).deep_view() == (MonitorView {
                last_error: Some(i18n::plain_message("Bluetooth Worker 已停止"@)),
                ..old(self).deep_view()
            }),
    {
        self.last_error = Some(LocalizedText::plain("Bluetooth Worker 已停止"));
    }

    /// Clears the decoder and the frames of the shown session.
    pub fn reset_active_protocol(&mut self)
        requires
            monitor_wf(old(self).deep_view()),
        ensures
            final(self).deep_view() == (MonitorView {
                store: store::protocol_cleared(old(self).deep_view().store),
                ..old(self).deep_view()
            }),
            monitor_wf(final(self).deep_view()),
    {
        proof {
            reveal(sessions_wf);
        }
        self.store.reset_active_protocol();
    }

    /// Decodes the packets of a characteristic from now on.
    pub fn set_protocol_source(&mut self, key: CharacteristicKey)
        requires
            monitor_wf(old(self).deep_view()),
        ensures
            final(self).deep_view() == (MonitorView {
                protocol: ProtocolPanelView {
                    source: Some(key.deep_view()),
                    ..old(self).deep_view().protocol
                },
                store: store::protocol_cleared(old(self).deep_view().store),
                ..old(self).deep_view()
            }),
            monitor_wf(final(self).deep_view()),
    {
        proof {
            reveal(sessions_wf);
        }
        self.protocol.source = Some(key);
        self.store.reset_active_protocol();
    }

    /// Chooses another kind of framing; the frames so far go where it changes.
    pub fn switch_frame_kind(&mut self, kind: analyzer::FrameKind)
        requires
            monitor_wf(old(self).deep_view()),
        ensures
            final(self).deep_view() == (MonitorView {
                protocol: analyzer::with_kind(old(self).deep_view().protocol, kind),
                store: if kind == analyzer::kind_of(
                    old(self).deep_view().protocol.config.frame_mode,
                ) {
                    old(self).deep_view().store
                } else {
                    store::protocol_cleared(old(self).deep_view().store)
                },
                ..old(self).deep_view()
            }),
            monitor_wf(final(self).deep_view()),
    {
        proof {
            reveal(sessions_wf);
        }
        if self.protocol.switch_kind(kind) {
            self.store.reset_active_protocol();
        }
    }

    /// Takes over a protocol preset.
    pub fn apply_protocol_preset(&mut self, index: usize)
        requires
            monitor_wf(old(self).deep_view()),
        ensures
            final(self).deep_view() == (if index < old(self).protocol.presets@.len() {
                MonitorView {
                    protocol: analyzer::with_preset(old(self).deep_view().protocol, index),
                    store: store::protocol_cleared(old(self).deep_view().store),
                    status: message_1(
                        "已应用协议预设：{}"@,
                        old(self).deep_view().protocol.presets[index as int].preset.name,
                    ),
                    ..old(self).deep_view()
                }
            } else {
                old(self).deep_view()
            }),
            monitor_wf(final(self).deep_view()),
    {
        proof {
            reveal(sessions_wf);
        }
        match self.protocol.apply_preset(index) {
            Some(name) => {
                self.store.reset_active_protocol();
                self.status = LocalizedText::with_one("已应用协议预设：{}", name);
            },
            None => {},
        }
    }

    /// The command that selects another adapter.
    pub fn request_adapter(&self, index: usize) -> (r: Option<BleCommand>)
        ensures
            r.deep_view() == (if index != self.connection.selected_adapter {
                Some(BleCommandView::SelectAdapter { index })
            } else {
                None
            }),
    {
        if index != self.connection.selected_adapter {
            Some(BleCommand::SelectAdapter { index })
        } else {
            None
        }
    }

    /// The command that starts a scan, or stops the running one.
    pub fn toggle_scan(&self) -> (r: BleCommand)
        ensures
            r.deep_view() == (if self.connection.scanning {
                BleCommandView::StopScan
            } else {
                BleCommandView::StartScan {
                    service_uuids: scan::tokens(self.deep_view().devices.filter.services),
                }
            }),
    {
        if self.connection.scanning {
            BleCommand::StopScan
        } else {
            BleCommand::StartScan {
                service_uuids: scan::scan_service_tokens(self.devices.filter.services.as_str()),
            }
        }
    }

    /// Whether the selected device can be connected.
    pub fn can_connect(&self) -> (r: bool)
        ensures
            r == connectable(self.deep_view()),
    {
        self.connection.phase != ConnectionPhase::Connecting
            && self.connection.connected_id.is_none() && self.devices.selected_id.is_some()
    }

    /// Prepares the live session for the selected device and returns the command that connects
    /// it.
    pub fn connect_selected(&mut self, created_at: String) -> (r: Option<BleCommand>)
        requires
            monitor_wf(old(self).deep_view()),
            old(self).store.sessions@.len() < usize::MAX,
        ensures
            match old(self).deep_view().devices.selected_id {
                Some(peripheral_id) if connectable(old(self).deep_view()) => {
                    &&& r.deep_view() == Some(BleCommandView::Connect { peripheral_id })
                    &&& final(self).deep_view() == with_store(
                        old(self).deep_view(),
                        store::prepared_for(
                            old(self).deep_view().store,
                            peripheral_id,
                            selected_name(old(self).deep_view()),
                            created_at@,
                        ),
                    )
                },
                _ => r is None && final(self).deep_view() == old(self).deep_view(),
            },
            monitor_wf(final(self).deep_view()),
    {
        proof {
            reveal(sessions_wf);
        }
        if !self.can_connect() {
            return None;
        }
        let peripheral_id = match &self.devices.selected_id {
            Some(id) => id.clone(),
            None => {
                return None;
            },
        };
        let name = match self.devices.selected_device() {
            Some(device) => Some(device.name.clone()),
            None => None,
        };
        self.store.ensure_live_session_for_device(peripheral_id.clone(), name, created_at);
        self.plot.clear_plot_samples();
        Some(BleCommand::Connect { peripheral_id })
    }

    /// Switches automatic reconnects and returns the command for the worker where that changes
    /// anything.
    pub fn set_auto_reconnect(&mut self, enabled: bool) -> (r: Option<BleCommand>)
        ensures
            final(self).deep_view() == (MonitorView {
                connection: ConnectionPanelView {
                    auto_reconnect: enabled,
                    ..old(self).deep_view().connection
                },
                ..old(self).deep_view()
            }),
            r.deep_view() == (if enabled != old(self).connection.auto_reconnect {
                Some(BleCommandView::SetAutoReconnect { enabled })
            } else {
                None
            }),
    {
        let changed = enabled != self.connection.auto_reconnect;
        self.connection.auto_reconnect = enabled;
        if changed {
            Some(BleCommand::SetAutoReconnect { enabled })
        } else {
            None
        }
    }

    /// Selects a characteristic, and one of its descriptors or none.
    pub fn select_characteristic(
        &mut self,
        characteristic: CharacteristicInfo,
        descriptor: Option<DescriptorInfo>,
    )
        ensures
            final(self).deep_view() == (MonitorView {
                gatt: GattPanelView {
                    selected_characteristic: Some(characteristic.deep_view()),
                    selected_descriptor: descriptor.deep_view(),
                    ..old(self).deep_view().gatt
                },
                tx: TxPanelView {
                    write_with_response: characteristic.properties.write,
                    ..old(self).deep_view().tx
                },
                ..old(self).deep_view()
            }),
    {
        self.tx.write_with_response = characteristic.properties.write;
        self.gatt.select(characteristic, descriptor);
    }

    /// The command that sends the text at once, where it can be sent; the text goes to the
    /// history.
    pub fn send_now(&mut self) -> (r: Option<BleCommand>)
        requires
            tx::may_send(
                old(self).connection.connected_id is Some,
                old(self).deep_view().gatt.selected_characteristic,
            ) ==> codec::is_hex_readable(old(self).tx.tx_hex@),
        ensures
            ({
                let m = old(self).deep_view();
                let command = tx::write_command(
                    m.connection.connected_id is Some,
                    m.gatt.selected_characteristic,
                    m.tx.tx_hex,
                    m.tx.write_with_response,
                );
                &&& r.deep_view() == command
                &&& final(self).deep_view() == (if command is Some {
                    MonitorView {
                        tx: TxPanelView {
                            history: tx::remembered(m.tx.history, m.tx.tx_hex),
                            ..m.tx
                        },
                        ..m
                    }
                } else {
                    m
                })
            }),
    {
        let connected = self.connection.connected_id.is_some();
        let command = self.tx.send_command(connected, &self.gatt.selected_characteristic);
        if command.is_some() {
            let sent = self.tx.tx_hex.clone();
            self.tx.remember_tx(sent.as_str());
        }
        command
    }

    /// The command that writes the descriptor text, where it can be written.
    pub fn write_descriptor(&self) -> (r: Option<BleCommand>)
        requires
            codec::is_hex_readable(self.tx.descriptor_hex@),
        ensures
            r.deep_view() == match (
                self.deep_view().gatt.selected_descriptor,
                codec::hex_result(self.tx.descriptor_hex@),
            ) {
                (Some(descriptor), Ok(data)) if self.connection.connected_id is Some && data.len()
                    > 0 => Some(
                    BleCommandView::WriteDescriptor { descriptor: descriptor.key, data },
                ),
                _ => None,
            },
    {
        if self.connection.connected_id.is_none() {
            return None;
        }
        let descriptor = match &self.gatt.selected_descriptor {
            Some(descriptor) => descriptor,
            None => {
                return None;
            },
        };
        match codec::parse_hex(self.tx.descriptor_hex.as_str()) {
            Ok(data) => if data.len() > 0 {
                Some(BleCommand::WriteDescriptor { descriptor: descriptor.key.clone(), data })
            } else {
                None
            },
            Err(_) => None,
        }
    }

    /// Whether the periodic sender can look at the clock.
    pub fn can_tick_periodic_send(&self, now: u64) -> (r: bool)
        ensures
            r == tx::can_look(
                self.deep_view().tx,
                now,
                self.connection.connected_id is Some,
                self.deep_view().gatt.selected_characteristic,
            ),
    {
        let connected = self.connection.connected_id.is_some();
        self.tx.can_tick(now, connected, &self.gatt.selected_characteristic)
    }

    /// Looks at the clock of the periodic sender.
    pub fn tick_periodic_send(&mut self, now: u64) -> (r: PeriodicStep)
        requires
            tx::can_look(
                old(self).deep_view().tx,
                now,
                old(self).connection.connected_id is Some,
                old(self).deep_view().gatt.selected_characteristic,
            ),
        ensures
            ({
                let m = old(self).deep_view();
                let connected = m.connection.connected_id is Some;
                let target = m.gatt.selected_characteristic;
                &&& final(self).deep_view() == (MonitorView {
                    tx: tx::ticked(m.tx, now, connected, target),
                    ..m
                })
                &&& match r {
                    PeriodicStep::Idle => !m.tx.periodic_enabled,
                    PeriodicStep::Wait(wait_ms) => m.tx.periodic_enabled && !tx::is_due(m.tx, now)
                        && wait_ms == (match m.tx.periodic_next {
                        Some(deadline) => deadline - now,
                        None => tx::interval_of(m.tx) as int,
                    }),
                    PeriodicStep::Due { command, wait_ms } => tx::is_due(m.tx, now) && wait_ms
                        == tx::interval_of(m.tx) && command.deep_view() == tx::periodic_command(
                        m.tx,
                        connected,
                        target,
                    ),
                }
            }),
    {
        let connected = self.connection.connected_id.is_some();
        self.tx.tick_periodic_send(now, connected, &self.gatt.selected_characteristic)
    }

    /// Adds a session for a capture that was read, and shows it.
    pub fn open_replay(
        &mut self,
        path: PathBuf,
        shown_path: String,
        file_name: Option<String>,
        records: Vec<ReplayRecord>,
        created_at: String,
    )
        requires
            monitor_wf(old(self).deep_view()),
            old(self).store.sessions@.len() < usize::MAX,
        ensures
            final(self).deep_view() == (MonitorView {
                status: message_2(
                    "已载入 {count} 条回放记录：{}"@,
                    text::decimal(records@.len()),
                    shown_path@,
                ),
                ..with_store(
                    old(self).deep_view(),
                    store::replay_opened(
                        old(self).deep_view().store,
                        path,
                        file_name.deep_view(),
                        records.deep_view(),
                        created_at@,
                    ),
                )
            }),
            monitor_wf(final(self).deep_view()),
    {
        proof {
            reveal(sessions_wf);
        }
        let count = text::decimal_text(records.len() as u64);
        self.store.open_replay(path, file_name, records, created_at);
        self.plot.clear_plot_samples();
        self.status = LocalizedText::with_two(
            "已载入 {count} 条回放记录：{}",
            count,
            shown_path,
        );
    }

    /// Shows another session.
    pub fn activate_session(&mut self, index: usize, elapsed_ms: u64)
        requires
            monitor_wf(old(self).deep_view()),
        ensures
            final(self).deep_view() == (if index != old(self).store.active && index < old(
                self,
            ).store.sessions@.len() {
                with_store(
                    old(self).deep_view(),
                    store::shown(old(self).deep_view().store, index, elapsed_ms),
                )
            } else {
                old(self).deep_view()
            }),
            monitor_wf(final(self).deep_view()),
    {
        proof {
            reveal(sessions_wf);
        }
        if self.store.activate(index, elapsed_ms) {
            self.plot.clear_plot_samples();
        }
    }

    /// Closes a session other than the live one.
    pub fn close_session(&mut self, index: usize)
        requires
            monitor_wf(old(self).deep_view()),
        ensures
            final(self).deep_view() == (if index < old(self).store.sessions@.len() && index
                != old(self).store.live {
                with_store(
                    old(self).deep_view(),
                    store::closed(old(self).deep_view().store, index),
                )
            } else {
                old(self).deep_view()
            }),
            monitor_wf(final(self).deep_view()),
    {
        proof {
            reveal(sessions_wf);
        }
        if self.store.close_session(index) {
            self.plot.clear_plot_samples();
        }
    }

    /// What a workspace file holds of the state.
    pub fn workspace_snapshot(&self) -> (r: WorkspaceFile)
        requires
            monitor_wf(self.deep_view()),
        ensures
            r.deep_view() == snapshot_of(self.deep_view()),
    {
        proof {
            reveal(sessions_wf);
        }
        WorkspaceFile {
            version: workspace::WORKSPACE_VERSION,
            name: self.workspace.name.clone(),
            saved_at: String::new(),
            active_session_id: Some(self.store.active_session().meta.id),
            sessions: self.store.metas(),
            layout: self.workspace.layout,
        }
    }

    /// Opens a workspace file: its sessions replace the present ones, each with the records of its
    /// capture where they could be read.
    pub fn open_workspace(
        &mut self,
        path: PathBuf,
        shown_path: String,
        file: WorkspaceFile,
        captures: Vec<Option<Vec<ReplayRecord>>>,
        created_at: String,
    ) -> (r: BleCommand)
        requires
            captures@.len() == file.sessions@.len(),
            file.sessions@.len() < usize::MAX,
            store::is_restorable(file.deep_view().sessions),
        ensures
            r.deep_view() == BleCommandView::Disconnect,
            final(self).deep_view() == under_workspace(
                old(self).deep_view(),
                path,
                shown_path@,
                file.name@,
                file.saved_at@,
                file.layout,
                store::restored_store(
                    store::restored_sessions(file.deep_view().sessions, captures.deep_view()),
                    file.active_session_id,
                    created_at@,
                ),
            ),
            monitor_wf(final(self).deep_view()),
    {
        let ghost metas = file.deep_view().sessions;
        let ghost found = captures.deep_view();
        let sessions = store::restore_sessions(&file.sessions, captures);
        proof {
            store::restorable_sessions_fit(metas, found);
        }
        self.apply_workspace(path, shown_path, file, sessions, created_at)
    }

    /// Takes over a workspace: its sessions, as they were restored, its name and its layout.
    /// Returns the command that ends the connection.
    pub fn apply_workspace(
        &mut self,
        path: PathBuf,
        shown_path: String,
        file: WorkspaceFile,
        sessions: Vec<RuntimeSession>,
        created_at: String,
    ) -> (r: BleCommand)
        requires
            sessions@.len() < usize::MAX,
            store::are_sessions_of(sessions.deep_view(), file.deep_view().sessions),
            forall|i: int|
                0 <= i < sessions@.len() ==> session::session_wf(
                    #[trigger] sessions.deep_view()[i],
                ),
            store::first_live(sessions.deep_view()) is Some || store::max_session_id(
                sessions.deep_view(),
            ) < u64::MAX,
        ensures
            r.deep_view() == BleCommandView::Disconnect,
            final(self).deep_view() == under_workspace(
                old(self).deep_view(),
                path,
                shown_path@,
                file.name@,
                file.saved_at@,
                file.layout,
                store::restored_store(sessions.deep_view(), file.active_session_id, created_at@),
            ),
            monitor_wf(final(self).deep_view()),
    {
        proof {
            reveal(sessions_wf);
        }
        self.store = SessionStore::restore(sessions, file.active_session_id, created_at);
        self.workspace.name = file.name;
        self.workspace.path = Some(path);
        self.workspace.layout = file.layout;
        self.plot.clear_plot_samples();
        self.status = if file.saved_at.as_str().is_empty() {
            LocalizedText::with_one("Workspace 已打开：{}", shown_path)
        } else {
            LocalizedText::with_two(
                "Workspace 已打开：{} · saved {saved_at}",
                shown_path,
                file.saved_at,
            )
        };
        BleCommand::Disconnect
    }

    /// Notes that the workspace was saved.
    pub fn workspace_saved(&mut self, path: PathBuf, shown_path: String)
        ensures
            final(self).deep_view() == (MonitorView {
                workspace: WorkspacePanelView {
                    path: Some(path),
                    ..old(self).deep_view().workspace
                },
                status: message_1("Workspace 已保存：{}"@, shown_path@),
                ..old(self).deep_view()
            }),
    {
        self.workspace.path = Some(path);
        self.status = LocalizedText::with_one("Workspace 已保存：{}", shown_path);
    }

    /// The profile of the settings in force.
    pub fn current_profile(&self) -> (r: DeviceProfile)
        ensures
            r.deep_view() == current_settings(self.deep_view()),
    {
        let given = text::trimmed(self.profiles.name.as_str());
        let mut device_id: Option<String> = None;
        let mut address: Option<String> = None;
        let mut device_name: Option<String> = None;
        match self.devices.selected_device() {
            Some(device) => {
                device_id = Some(device.id.clone());
                address = Some(device.address.clone());
                if !text::same_text(device.name.as_str(), "(unknown)") {
                    device_name = Some(device.name.clone());
                }
            },
            None => {},
        }
        let name = if !given.as_str().is_empty() {
            given
        } else {
            match device_name {
                Some(name) => name,
                None => "BLE Profile".to_owned(),
            }
        };
        let characteristic = match &self.gatt.selected_characteristic {
            Some(characteristic) => Some(characteristic.key.clone()),
            None => None,
        };
        DeviceProfile {
            name,
            device_id,
            address,
            characteristic,
            auto_reconnect: self.connection.auto_reconnect,
            write_with_response: self.tx.write_with_response,
            tx_hex: self.tx.tx_hex.clone(),
            protocol_source: self.protocol.source.clone(),
            protocol: self.protocol.config.clone(),
            plot_channels: self.plot.configs(),
            periodic_interval_ms: self.tx.periodic_interval_ms,
            tx_history: self.tx.history_list(),
            scan_name_filter: self.devices.filter.name.clone(),
            scan_service_filter: self.devices.filter.services.clone(),
            scan_min_rssi: self.devices.filter.min_rssi,
            saved_at: String::new(),
        }
    }

    /// Takes the profiles as they are after one was saved, and its place among them.
    pub fn profile_saved(
        &mut self,
        name: String,
        profiles: Vec<StoredProfile>,
        position: Option<usize>,
        shown_path: String,
    )
        ensures
            final(self).deep_view() == (MonitorView {
                profiles: ProfilePanelView {
                    profiles: profiles.deep_view(),
                    selected: position,
                    name: name@,
                },
                status: message_1("Profile 已保存：{}"@, shown_path@),
                ..old(self).deep_view()
            }),
    {
        self.profiles.profiles = profiles;
        self.profiles.selected = position;
        self.profiles.name = name;
        self.status = LocalizedText::with_one("Profile 已保存：{}", shown_path);
    }

    /// Takes over a profile. Returns the command for the worker where automatic reconnects are
    /// switched.
    pub fn apply_profile(&mut self, index: usize) -> (r: Option<BleCommand>)
        requires
            monitor_wf(old(self).deep_view()),
        ensures
            ({
                let m = old(self).deep_view();
                if index < m.profiles.profiles.len() {
                    let p = m.profiles.profiles[index as int].profile;
                    &&& final(self).deep_view() == under_profile(m, index, p)
                    &&& r.deep_view() == (if p.auto_reconnect != m.connection.auto_reconnect {
                        Some(BleCommandView::SetAutoReconnect { enabled: p.auto_reconnect })
                    } else {
                        None
                    })
                } else {
                    r is None && final(self).deep_view() == m
                }
            }),
            monitor_wf(final(self).deep_view()),
    {
        proof {
            reveal(sessions_wf);
        }
        if index >= self.profiles.profiles.len() {
            return None;
        }
        let ghost m = self.deep_view();
        let profile = self.profiles.profiles[index].profile.clone();
        let ghost p = profile.deep_view();
        assert(p == m.profiles.profiles[index as int].profile);
        self.profiles.selected = Some(index);
        self.profiles.name = profile.name.clone();
        self.protocol.source = profile.protocol_source;
        self.protocol.config = profile.protocol;
        self.store.reset_active_protocol();
        if profile.plot_channels.len() > 0 {
            self.plot.channels = plot::channels_from(&profile.plot_channels);
        }
        self.tx.set_history(&profile.tx_history);
        self.tx.tx_hex = profile.tx_hex;
        self.tx.write_with_response = profile.write_with_response;
        self.tx.periodic_interval_ms = if profile.periodic_interval_ms >= tx::MIN_INTERVAL_MS {
            profile.periodic_interval_ms
        } else {
            tx::MIN_INTERVAL_MS
        };
        self.devices.filter.name = profile.scan_name_filter;
        self.devices.filter.services = profile.scan_service_filter;
        self.devices.filter.min_rssi = profile.scan_min_rssi;
        self.devices.select_for_profile(&profile.device_id, &profile.address);
        self.gatt.select_for_profile(profile.characteristic);
        self.status = LocalizedText::with_one("已加载 Profile：{}", profile.name);
        self.set_auto_reconnect(profile.auto_reconnect)
    }

    /// Notes that a capture has started.
    pub fn capture_started(&mut self, paths: CapturePaths)
        requires
            monitor_wf(old(self).deep_view()),
        ensures
            final(self).deep_view() == ({
                let m = old(self).deep_view();
                let live = m.store.sessions[m.store.live as int];
                MonitorView {
                    capture: CapturePanelView {
                        last_paths: Some(paths.deep_view()),
                        error: None,
                    },
                    store: store::with_session(
                        m.store,
                        m.store.live as int,
                        RuntimeSessionView {
                            meta: WorkspaceSessionView {
                                source_path: Some(paths.raw),
                                ..live.meta
                            },
                            ..live
                        },
                    ),
                    status: i18n::plain_message("已开始 CSV + BMON 捕获"@),
                    ..m
                }
            }),
            monitor_wf(final(self).deep_view()),
    {
        proof {
            reveal(sessions_wf);
        }
        self.store.set_live_source(paths.raw.clone());
        self.capture.last_paths = Some(paths);
        self.capture.error = None;
        self.status = LocalizedText::plain("已开始 CSV + BMON 捕获");
    }

    /// Notes that a packet could not be written to the capture.
    pub fn capture_write_failed(&mut self, error: String)
        ensures
            final(self).deep_view() == (MonitorView {
                capture: CapturePanelView {
                    error: Some(message_1("捕获写入失败：{error:#}"@, error@)),
                    ..old(self).deep_view().capture
                },
                ..old(self).deep_view()
            }),
    {
        self.capture.error = Some(LocalizedText::with_one("捕获写入失败：{error:#}", error));
    }

    /// Notes how a capture ended.
    pub fn capture_stopped(&mut self, records: u64, error: Option<String>)
        ensures
            final(self).deep_view() == match error {
                None => MonitorView {
                    status: message_1(
                        "捕获已保存：{records} records"@,
                        text::decimal(records as nat),
                    ),
                    ..old(self).deep_view()
                },
                Some(message) => MonitorView {
                    capture: CapturePanelView {
                        error: Some(message_1("刷新捕获文件失败：{error:#}"@, message@)),
                        ..old(self).deep_view().capture
                    },
                    ..old(self).deep_view()
                },
            },
    {
        match error {
            None => {
                self.status = LocalizedText::with_one(
                    "捕获已保存：{records} records",
                    text::decimal_text(records),
                );
            },
            Some(message) => {
                self.capture.error = Some(
                    LocalizedText::with_one("刷新捕获文件失败：{error:#}", message),
                );
            },
        }
    }
}

/// A packet of the connected device changes the live session alone, whichever session is shown.
pub proof fn packets_reach_the_live_session(m: MonitorView, entry: LogEntryView)
    requires
        monitor_wf(m),
    ensures
        ({
            let after = after_packet(m, entry);
            &&& after.store.sessions[m.store.live as int] == session::ingested(
                m.store.sessions[m.store.live as int],
                entry,
                m.protocol.source,
                m.protocol.config,
                store::is_hidden(m.store, m.store.live, entry, m.view.monitor_paused),
            )
            &&& forall|i: int|
                0 <= i < m.store.sessions.len() && i != m.store.live
                    ==> #[trigger] after.store.sessions[i] == m.store.sessions[i]
        }),
{
    reveal(sessions_wf);
}

/// A device that was disconnected on request leaves nothing behind but the list of devices and
/// the sessions.
pub proof fn disconnect_clears_the_device(m: MonitorView, id: Option<Seq<char>>, delay: Seq<char>)
    ensures
        ({
            let after = handled(
                m,
                BleEventView::Disconnected { peripheral_id: id, unexpected: false },
                delay,
            );
            &&& after.connection.connected_id is None && after.connection.connected_name is None
            &&& after.connection.mtu is None && after.connection.target_id is None
            &&& after.connection.phase == ConnectionPhase::Disconnected
            &&& after.gatt.snapshot.services.len() == 0
            &&& after.gatt.selected_characteristic is None
            &&& after.gatt.selected_descriptor is None
            &&& after.devices == m.devices && after.store == m.store
        }),
{
}

/// A device that was lost keeps its services on the screen and stays the target while a
/// reconnect is awaited.
pub proof fn lost_device_stays_the_target(m: MonitorView, id: Option<Seq<char>>, delay: Seq<char>)
    requires
        m.connection.auto_reconnect,
    ensures
        ({
            let after = handled(
                m,
                BleEventView::Disconnected { peripheral_id: id, unexpected: true },
                delay,
            );
            &&& after.connection.phase == ConnectionPhase::Reconnecting
            &&& after.connection.target_id == m.connection.target_id
            &&& after.connection.connected_id is None
            &&& after.gatt == m.gatt
        }),
{
}

/// A profile that was just saved changes nothing of the settings when it is applied: the filters,
/// the text to send, the protocol and the automatic reconnects stay as they are.
pub proof fn saved_profile_restores_settings(m: MonitorView, index: usize)
    requires
        m.tx.periodic_interval_ms >= tx::MIN_INTERVAL_MS,
        m.tx.history.len() <= tx::MAX_TX_HISTORY,
    ensures
        ({
            let after = under_profile(m, index, current_settings(m));
            &&& after.devices.filter == m.devices.filter
            &&& after.connection == m.connection
            &&& after.tx == m.tx
            &&& after.protocol == m.protocol
            &&& m.plot.channels.len() > 0 ==> forall|i: int|
                0 <= i < m.plot.channels.len() ==> (#[trigger] after.plot.channels[i]).config
                    == m.plot.channels[i].config
        }),
{
    let p = current_settings(m);
    let after = under_profile(m, index, p);
    assert(after.tx =~= m.tx);
    assert(after.protocol =~= m.protocol);
    assert(after.connection == m.connection);
}

/// The settings that are kept bring the next start to the same settings.
pub proof fn preferences_survive_a_restart(
    m: MonitorView,
    presets: Seq<StoredProtocolPresetView>,
    profiles: Seq<StoredProfileView>,
    created_at: Seq<char>,
)
    requires
        m.tx.periodic_interval_ms >= tx::MIN_INTERVAL_MS,
        m.plot.max_points >= MIN_PLOT_POINTS,
        m.plot.channels.len() > 0,
    ensures
        kept_preferences(initial_monitor(kept_preferences(m), presets, profiles, created_at))
            == kept_preferences(m),
{
    let p = kept_preferences(m);
    let again = initial_monitor(p, presets, profiles, created_at);
    assert(kept_preferences(again).plot_channels =~= p.plot_channels);
    assert(kept_preferences(again) =~= p);
}

/// The phase of the connection follows the events of the worker, and with it the device that is
/// wanted or connected.
pub proof fn phases_follow_the_events(
    m: MonitorView,
    id: Seq<char>,
    name: Seq<char>,
    mtu: u16,
    attempt: u32,
    delay_ms: u64,
    adapter: AdapterInfoView,
    delay: Seq<char>,
)
    ensures
        ({
            let starting = handled(
                m,
                BleEventView::Connecting { peripheral_id: id, reconnect: false, attempt },
                delay,
            );
            let again = handled(
                m,
                BleEventView::Connecting { peripheral_id: id, reconnect: true, attempt },
                delay,
            );
            let done = handled(
                m,
                BleEventView::Connected { peripheral_id: id, name, mtu },
                delay,
            );
            let lost = handled(
                m,
                BleEventView::Disconnected { peripheral_id: Some(id), unexpected: true },
                delay,
            );
            let planned = handled(
                m,
                BleEventView::ReconnectScheduled { attempt, delay_ms },
                delay,
            );
            let failed = handled(m, BleEventView::ReconnectFailed { attempt, error: name }, delay);
            let fatal = handled(m, BleEventView::Fatal(name), delay);
            let switched = handled(m, BleEventView::AdapterSelected { adapter }, delay);
            &&& starting.connection.phase == ConnectionPhase::Connecting
            &&& again.connection.phase == ConnectionPhase::Reconnecting
            &&& starting.connection.target_id == Some(id) && again.connection.target_id == Some(id)
            &&& starting.last_error is None && again.last_error is None
            &&& done.connection.phase == ConnectionPhase::Connected
            &&& done.connection.connected_id == Some(id) && done.connection.connected_name == Some(
                name,
            ) && done.connection.mtu == Some(mtu) && done.connection.target_id == Some(id)
            &&& done.last_error is None
            &&& lost.connection.phase == if m.connection.auto_reconnect {
                ConnectionPhase::Reconnecting
            } else {
                ConnectionPhase::Disconnected
            }
            &&& lost.connection.connected_id is None && lost.connection.mtu is None
                && lost.connection.target_id == m.connection.target_id && lost.gatt == m.gatt
            &&& planned.connection.phase == ConnectionPhase::Reconnecting
            &&& planned.status == (LocalizedTextView::Message {
                key: "将在 {:.1}s 后进行第 {attempt} 次重连"@,
                args: seq![delay, text::decimal(attempt as nat)],
            })
            &&& failed.connection.phase == ConnectionPhase::Reconnecting
            &&& failed.last_error == Some(
                LocalizedTextView::Message {
                    key: "重连 #{attempt} 失败：{error}"@,
                    args: seq![text::decimal(attempt as nat), name],
                },
            )
            &&& fatal.connection.phase == ConnectionPhase::Disconnected
                && !fatal.connection.scanning && fatal.last_error == Some(
                LocalizedTextView::Diagnostic(name),
            )
            &&& switched.connection.phase == ConnectionPhase::Disconnected
                && switched.connection.selected_adapter == adapter.index
                && switched.connection.adapter_state == adapter.state
                && switched.connection.connected_id is None && switched.connection.mtu is None
                && switched.gatt.snapshot.services.len() == 0
        }),
{
}

/// The connected device names the live session, and no other session changes.
pub proof fn connected_devices_name_the_live_session(
    m: MonitorView,
    id: Seq<char>,
    name: Seq<char>,
    mtu: u16,
    delay: Seq<char>,
    i: int,
)
    requires
        monitor_wf(m),
        0 <= i < m.store.sessions.len(),
    ensures
        ({
            let after = handled(m, BleEventView::Connected { peripheral_id: id, name, mtu }, delay);
            let live = after.store.sessions[m.store.live as int];
            let before = m.store.sessions[m.store.live as int];
            &&& live.meta.device_id == Some(id) && live.meta.device_name == Some(name)
            &&& live.meta.name == "Live · "@ + name && live.meta.id == before.meta.id
            &&& live.logs == before.logs && live.meta.bookmarks == before.meta.bookmarks
            &&& i != m.store.live ==> after.store.sessions[i] == m.store.sessions[i]
            &&& after.store.live == m.store.live && after.store.active == m.store.active
        }),
{
    reveal(sessions_wf);
}

/// Each packet event is a packet of the live session, with the direction that it stands for. A
/// descriptor is named behind its characteristic.
pub proof fn packet_events_have_their_directions(
    m: MonitorView,
    key: CharacteristicKeyView,
    descriptor: DescriptorKeyView,
    data: Seq<u8>,
    timestamp: Seq<char>,
    delay: Seq<char>,
)
    ensures
        ({
            let of = |d: LogDirection|
                LogEntryView {
                    timestamp,
                    direction: d,
                    service_uuid: key.service_uuid,
                    characteristic_uuid: key.characteristic_uuid,
                    data,
                };
            let named = |d: LogDirection|
                LogEntryView {
                    timestamp,
                    direction: d,
                    service_uuid: descriptor.service_uuid,
                    characteristic_uuid: descriptor.characteristic_uuid + " / desc "@
                        + descriptor.descriptor_uuid,
                    data,
                };
            let gives = |event: BleEventView, entry: LogEntryView|
                event_packet(event) == Some(entry) && handled(m, event, delay) == (MonitorView {
                    store: store::store_ingested(
                        m.store,
                        m.store.live,
                        entry,
                        m.protocol.source,
                        m.protocol.config,
                        m.view.monitor_paused,
                    ),
                    ..m
                });
            &&& gives(
                BleEventView::Notification { characteristic: key, data, timestamp },
                of(LogDirection::Rx),
            )
            &&& gives(
                BleEventView::ReadResult { characteristic: key, data, timestamp },
                of(LogDirection::Read),
            )
            &&& gives(
                BleEventView::WriteComplete { characteristic: key, data, timestamp },
                of(LogDirection::Tx),
            )
            &&& gives(
                BleEventView::DescriptorReadResult { descriptor, data, timestamp },
                named(LogDirection::Read),
            )
            &&& gives(
                BleEventView::DescriptorWriteComplete { descriptor, data, timestamp },
                named(LogDirection::Tx),
            )
        }),
{
}

/// An event changes only what it is about: packets the sessions, devices the list of them, services
/// their panel, and errors and messages what is shown of them. No event changes the settings.
pub proof fn events_change_what_they_are_about(m: MonitorView, event: BleEventView, delay: Seq<char>)
    ensures
        ({
            let after = handled(m, event, delay);
            let packet = event is Notification || event is ReadResult || event is WriteComplete
                || event is DescriptorReadResult || event is DescriptorWriteComplete;
            let listed = event is DeviceUpsert || event is DeviceRssi || event is DevicesCleared;
            &&& after.view == m.view && after.tx == m.tx && after.plot == m.plot
            &&& after.protocol == m.protocol && after.profiles == m.profiles
            &&& after.capture == m.capture && after.workspace == m.workspace
            &&& after.connection.auto_reconnect == m.connection.auto_reconnect
            &&& !packet && !(event is Connected) ==> after.store == m.store
            &&& !listed ==> after.devices == m.devices
            &&& after.devices.filter == m.devices.filter
            &&& packet || listed ==> after.connection == m.connection && after.gatt == m.gatt
                && after.status == m.status && after.last_error == m.last_error
            &&& event is GattDiscovered || event is Subscribed || event is Status || event is Error
                ==> after.connection == m.connection
            &&& after.connection.scanning == match event {
                BleEventView::ScanStarted => true,
                BleEventView::ScanStopped => false,
                BleEventView::Fatal(_) => false,
                _ => m.connection.scanning,
            }
            &&& event matches BleEventView::Error(error) ==> after.last_error == Some(
                LocalizedTextView::Diagnostic(error),
            )
            &&& event matches BleEventView::Status(status) ==> after.status == status
            &&& event is DevicesCleared ==> after.devices.devices.len() == 0
                && after.devices.selected_id is None
            &&& event matches BleEventView::DeviceUpsert { device } ==> after.devices
                == devices::with_device(m.devices, device)
            &&& event matches BleEventView::DeviceRssi { peripheral_id, rssi } ==> after.devices
                == devices::with_rssi(m.devices, peripheral_id, rssi)
            &&& event matches BleEventView::GattDiscovered { snapshot } ==> after.gatt
                == gatt::with_snapshot(m.gatt, snapshot)
            &&& event matches BleEventView::AdapterState { state } ==> after.connection
                == (ConnectionPanelView { adapter_state: state, ..m.connection })
            &&& event matches BleEventView::Ready { adapters, selected_adapter } ==> {
                &&& after.connection.adapters == adapters
                &&& after.connection.selected_adapter == selected_adapter
                &&& selected_adapter < adapters.len() ==> after.connection.adapter_state
                    == adapters[selected_adapter as int].state
            }
        }),
{
}

/// The window starts with the settings that were kept: nothing is connected or sent, an interval
/// below a tenth of a second and fewer than a hundred points are raised to these, and without
/// channels there are four.
pub proof fn windows_start_with_their_settings(
    p: AppPreferencesView,
    presets: Seq<StoredProtocolPresetView>,
    profiles: Seq<StoredProfileView>,
    created_at: Seq<char>,
    i: int,
)
    ensures
        ({
            let m = initial_monitor(p, presets, profiles, created_at);
            &&& m.view.language == p.language && m.view.auto_scroll == p.auto_scroll
            &&& m.view.show_ascii == p.show_ascii && !m.view.monitor_paused
            &&& m.view.log_filter.show_rx == p.show_rx && m.view.log_filter.show_read
                == p.show_read && m.view.log_filter.show_tx == p.show_tx
                && m.view.log_filter.text.len() == 0
            &&& m.tx.write_with_response == p.write_with_response && !m.tx.periodic_enabled
            &&& m.tx.periodic_interval_ms == if p.periodic_interval_ms < 100 {
                100
            } else {
                p.periodic_interval_ms
            }
            &&& m.plot.max_points == if p.plot_max_points < 100 {
                100
            } else {
                p.plot_max_points
            }
            &&& p.plot_channels.len() == 0 ==> m.plot.channels.len() == 4
            &&& p.plot_channels.len() > 0 ==> m.plot.channels.len() == p.plot_channels.len()
            &&& 0 <= i < p.plot_channels.len() ==> m.plot.channels[i].config == p.plot_channels[i]
                && m.plot.channels[i].samples.len() == 0
            &&& m.connection.auto_reconnect == p.auto_reconnect && m.connection.connected_id is None
            &&& m.connection.phase == ConnectionPhase::Disconnected && !m.connection.scanning
            &&& m.devices.filter.name == p.scan_name_filter && m.devices.filter.services
                == p.scan_service_filter && m.devices.filter.min_rssi == p.scan_min_rssi
            &&& m.devices.devices.len() == 0 && m.devices.selected_id is None
            &&& m.protocol.config == p.protocol_config && m.protocol.source is None
                && m.protocol.presets == presets
            &&& m.profiles.profiles == profiles && m.workspace.layout == p.layout
        }),
{
}

/// The name of a new profile: the one that was given, without the white space around it, else that
/// of the selected device, where it has one.
pub proof fn profiles_are_named(
    m: MonitorView,
    left: Seq<char>,
    name: Seq<char>,
    right: Seq<char>,
)
    requires
        forall|i: int| 0 <= i < left.len() ==> text::is_space(#[trigger] left[i]),
        forall|i: int| 0 <= i < right.len() ==> text::is_space(#[trigger] right[i]),
        name.len() > 0 ==> !text::is_space(name[0]) && !text::is_space(name.last()),
        m.profiles.name == left + name + right,
    ensures
        name.len() > 0 ==> current_settings(m).name == name,
        name.len() == 0 ==> current_settings(m).name == match devices::chosen_device(m.devices) {
            Some(device) => if device.name == "(unknown)"@ {
                "BLE Profile"@
            } else {
                device.name
            },
            None => "BLE Profile"@,
        },
        devices::chosen_device(m.devices) matches Some(device) ==> current_settings(m).device_id
            == Some(device.id) && current_settings(m).address == Some(device.address),
        devices::chosen_device(m.devices) is None ==> current_settings(m).device_id is None
            && current_settings(m).address is None,
        m.gatt.selected_characteristic matches Some(found) ==> current_settings(m).characteristic
            == Some(found.key),
        m.gatt.selected_characteristic is None ==> current_settings(m).characteristic is None,
{
    text::trimming_drops_the_ends(left, name, right);
}

/// A profile that is applied brings all its settings: the filters, the device and the characteristic
/// that it asks for, what is sent and how often, the protocol with its source, and the channels, if
/// it has any. The frames of the shown session are dropped.
pub proof fn profiles_bring_their_settings(
    m: MonitorView,
    index: usize,
    p: DeviceProfileView,
    i: int,
)
    requires
        monitor_wf(m),
    ensures
        ({
            let after = under_profile(m, index, p);
            &&& after.devices.filter.name == p.scan_name_filter
            &&& after.devices.filter.services == p.scan_service_filter
            &&& after.devices.filter.min_rssi == p.scan_min_rssi
            &&& after.connection.auto_reconnect == p.auto_reconnect
            &&& after.connection.phase == m.connection.phase && after.connection.connected_id
                == m.connection.connected_id
            &&& after.tx.tx_hex == p.tx_hex && after.tx.write_with_response
                == p.write_with_response
            &&& after.tx.periodic_interval_ms == if p.periodic_interval_ms < 100 {
                100
            } else {
                p.periodic_interval_ms
            }
            &&& after.tx.periodic_enabled == m.tx.periodic_enabled
            &&& p.tx_history.len() <= 100 ==> after.tx.history == p.tx_history
            &&& p.tx_history.len() > 100 ==> after.tx.history == p.tx_history.take(100)
            &&& after.protocol.config == p.protocol && after.protocol.source == p.protocol_source
            &&& p.plot_channels.len() == 0 ==> after.plot == m.plot
            &&& p.plot_channels.len() > 0 ==> after.plot.channels.len() == p.plot_channels.len()
            &&& 0 <= i < p.plot_channels.len() ==> after.plot.channels[i].config
                == p.plot_channels[i] && after.plot.channels[i].samples.len() == 0
            &&& after.profiles.selected == Some(index) && after.profiles.name == p.name
            &&& p.characteristic matches Some(key) ==> match gatt::in_services(
                m.gatt.snapshot.services,
                key,
            ) {
                Some(found) => after.gatt.selected_characteristic == Some(found)
                    && after.gatt.pending is None,
                None => after.gatt.pending == Some(key) && after.gatt.selected_characteristic
                    == m.gatt.selected_characteristic,
            }
            &&& after.store.sessions[m.store.active as int].protocol_frames.len() == 0
            &&& after.store.sessions[m.store.active as int].logs
                == m.store.sessions[m.store.active as int].logs
        }),
{
    reveal(sessions_wf);
}

/// A workspace file holds the name and the layout of the workspace and what each session is, in
/// order, and says which one is shown.
pub proof fn workspace_files_hold_the_sessions(m: MonitorView, i: int)
    requires
        monitor_wf(m),
        0 <= i < m.store.sessions.len(),
    ensures
        ({
            let file = snapshot_of(m);
            &&& file.name == m.workspace.name && file.layout == m.workspace.layout
            &&& file.sessions.len() == m.store.sessions.len()
            &&& file.sessions[i] == m.store.sessions[i].meta
            &&& file.active_session_id == Some(m.store.sessions[m.store.active as int].meta.id)
        }),
{
    reveal(sessions_wf);
}

/// Opening a workspace takes over its name, its path and its layout and shows its sessions, without
/// the samples of the plot; the rest of the window stays as it is.
pub proof fn opened_workspaces_are_taken_over(
    m: MonitorView,
    path: PathBuf,
    shown_path: Seq<char>,
    name: Seq<char>,
    saved_at: Seq<char>,
    layout: WorkspaceLayout,
    sessions: SessionStoreView,
    i: int,
)
    ensures
        ({
            let after = under_workspace(m, path, shown_path, name, saved_at, layout, sessions);
            &&& after.workspace.name == name && after.workspace.path == Some(path)
            &&& after.workspace.layout == layout && after.store == sessions
            &&& after.connection == m.connection && after.devices == m.devices && after.tx == m.tx
            &&& after.protocol == m.protocol && after.view == m.view
            &&& after.plot.channels.len() == m.plot.channels.len()
            &&& 0 <= i < m.plot.channels.len() ==> after.plot.channels[i].samples.len() == 0
                && after.plot.channels[i].config == m.plot.channels[i].config
        }),
{
}

/// The selected device can be connected while none is connected and none is being connected for the
/// first time; a reconnect does not hinder it.
pub proof fn one_device_is_connected_at_a_time(m: MonitorView)
    ensures
        m.devices.selected_id is None ==> !connectable(m),
        m.connection.connected_id is Some ==> !connectable(m),
        m.connection.phase == ConnectionPhase::Connecting ==> !connectable(m),
        m.devices.selected_id is Some && m.connection.connected_id is None && m.connection.phase
            != ConnectionPhase::Connecting ==> connectable(m),
{
}

/// The messages say what has happened: with which adapter, device or characteristic, and how many
/// devices or services were found.
pub proof fn messages_say_what_has_happened(
    m: MonitorView,
    id: Seq<char>,
    name: Seq<char>,
    number: u16,
    attempt: u32,
    adapter: AdapterInfoView,
    snapshot: GattSnapshotView,
    key: CharacteristicKeyView,
    delay: Seq<char>,
)
    ensures
        ({
            let says = |event: BleEventView, words: Seq<char>, args: Seq<Seq<char>>|
                handled(m, event, delay).status == (LocalizedTextView::Message {
                    key: words,
                    args,
                });
            &&& says(
                BleEventView::Ready { adapters: seq![adapter], selected_adapter: 0 },
                "Bluetooth 已就绪：{}"@,
                seq![adapter.name],
            )
            &&& says(
                BleEventView::Ready { adapters: Seq::empty(), selected_adapter: 0 },
                "Bluetooth 已就绪"@,
                Seq::empty(),
            )
            &&& says(
                BleEventView::AdapterSelected { adapter },
                "已切换 Adapter：{}"@,
                seq![adapter.name],
            )
            &&& says(BleEventView::ScanStarted, "正在实时扫描 BLE 设备…"@, Seq::empty())
            &&& says(
                BleEventView::ScanStopped,
                "扫描已停止：{} 个设备"@,
                seq![text::decimal(m.devices.devices.len())],
            )
            &&& says(
                BleEventView::Connecting { peripheral_id: id, reconnect: false, attempt },
                "正在连接 {peripheral_id}"@,
                seq![id],
            )
            &&& says(
                BleEventView::Connecting { peripheral_id: id, reconnect: true, attempt },
                "自动重连 #{attempt}：{peripheral_id}"@,
                seq![text::decimal(attempt as nat), id],
            )
            &&& says(
                BleEventView::Connected { peripheral_id: id, name, mtu: number },
                "已连接 {name} · MTU {mtu}"@,
                seq![name, text::decimal(number as nat)],
            )
            &&& says(
                BleEventView::Disconnected { peripheral_id: Some(id), unexpected: true },
                "连接意外断开"@,
                Seq::empty(),
            )
            &&& says(
                BleEventView::Disconnected { peripheral_id: Some(id), unexpected: false },
                "已断开"@,
                Seq::empty(),
            )
            &&& says(
                BleEventView::GattDiscovered { snapshot },
                "GATT：{} 个 Service"@,
                seq![text::decimal(snapshot.services.len())],
            )
            &&& says(
                BleEventView::Subscribed { characteristic: key },
                "已订阅 {}"@,
                seq![key.characteristic_uuid],
            )
            &&& says(BleEventView::Fatal(name), "Bluetooth Worker 已停止"@, Seq::empty())
        }),
{
    assert(seq![adapter][0] == adapter);
}

} // verus!
