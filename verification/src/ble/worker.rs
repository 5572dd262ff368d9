//! The decisions of the worker that owns the Bluetooth adapter.
//!
//! The worker is a state machine: [`WorkerState::step`] takes what happened and returns what is
//! to be done next. The actions are carried out in order; an action that has an outcome hands it
//! back as the next input, before anything else is taken up.

use crate::ble::model::{
    AdapterInfo, BleCommand, BleEvent, CharacteristicKey, DescriptorKey, DeviceInfo, GattSnapshot,
    ManufacturerDataEntry, ServiceDataEntry,
};
#[allow(unused_imports)]
use crate::ble::model::{
    AdapterInfoView, BleCommandView, BleEventView, CharacteristicKeyView, DescriptorKeyView,
    DeviceInfoView, GattSnapshotView, ManufacturerDataEntryView, ServiceDataEntryView,
};
use crate::ble::scan;
use crate::i18n;
use crate::i18n::LocalizedText;
#[allow(unused_imports)]
use crate::i18n::LocalizedTextView;
use crate::sorting;
use crate::sorting::Ranked;
use crate::text;
use vstd::prelude::*;
#[allow(unused_imports)]
use vstd::string::*;

verus! {

/// The longest pause before a reconnect.
pub const MAX_RECONNECT_DELAY_MS: u64 = 10_000;

/// The name of a device that does not give one.
pub const UNKNOWN_NAME: &'static str = "(unknown)";

/// Whether an adapter is switched on.
#[derive(Debug, Clone, Copy, PartialEq, Eq, Structural)]
pub enum CentralState {
    Unknown,
    PoweredOn,
    PoweredOff,
}

/// The name of an adapter state.
pub open spec fn state_label(state: CentralState) -> Seq<char> {
    match state {
        CentralState::Unknown => "Unknown"@,
        CentralState::PoweredOn => "Powered On"@,
        CentralState::PoweredOff => "Powered Off"@,
    }
}

/// The name of an adapter state.
pub fn central_state_label(state: CentralState) -> (r: &'static str)
    ensures
        r@ == state_label(state),
{
    match state {
        CentralState::Unknown => "Unknown",
        CentralState::PoweredOn => "Powered On",
        CentralState::PoweredOff => "Powered Off",
    }
}

/// What a connection attempt found.
#[derive(Debug)]
pub struct Established {
    pub name: Option<String>,
    pub mtu: u16,
    pub snapshot: GattSnapshot,
}

/// The mathematical value of [`Established`].
#[verifier::ext_equal]
pub struct EstablishedView {
    pub name: Option<Seq<char>>,
    pub mtu: u16,
    pub snapshot: GattSnapshotView,
}

impl DeepView for Established {
    type V = EstablishedView;

    open spec fn deep_view(&self) -> EstablishedView {
        EstablishedView {
            name: self.name.deep_view(),
            mtu: self.mtu,
            snapshot: self.snapshot.deep_view(),
        }
    }
}

impl Clone for Established {
    fn clone(&self) -> (r: Self)
        ensures
            r.deep_view() == self.deep_view(),
    {
        Established {
            name: self.name.clone(),
            mtu: self.mtu,
            snapshot: self.snapshot.clone(),
        }
    }
}

/// How an operation on a characteristic or descriptor ended.
#[derive(Debug)]
pub enum OperationOutcome {
    Failed(String),
    SubscribedAll {
        count: u64,
    },
    Subscribed {
        characteristic: CharacteristicKey,
    },
    Read {
        characteristic: CharacteristicKey,
        data: Vec<u8>,
        timestamp: String,
    },
    Written {
        characteristic: CharacteristicKey,
        data: Vec<u8>,
        timestamp: String,
    },
    DescriptorRead {
        descriptor: DescriptorKey,
        data: Vec<u8>,
        timestamp: String,
    },
    DescriptorWritten {
        descriptor: DescriptorKey,
        data: Vec<u8>,
        timestamp: String,
    },
}

/// The mathematical value of [`OperationOutcome`].
#[verifier::ext_equal]
pub enum OperationOutcomeView {
    Failed(Seq<char>),
    SubscribedAll { count: u64 },
    Subscribed { characteristic: CharacteristicKeyView },
    Read { characteristic: CharacteristicKeyView, data: Seq<u8>, timestamp: Seq<char> },
    Written { characteristic: CharacteristicKeyView, data: Seq<u8>, timestamp: Seq<char> },
    DescriptorRead { descriptor: DescriptorKeyView, data: Seq<u8>, timestamp: Seq<char> },
    DescriptorWritten { descriptor: DescriptorKeyView, data: Seq<u8>, timestamp: Seq<char> },
}

impl DeepView for OperationOutcome {
    type V = OperationOutcomeView;

    open spec fn deep_view(&self) -> OperationOutcomeView {
        match *self {
            OperationOutcome::Failed(value) => OperationOutcomeView::Failed(value@),
            OperationOutcome::SubscribedAll { count } => OperationOutcomeView::SubscribedAll {
                count,
            },
            OperationOutcome::Subscribed { characteristic } => OperationOutcomeView::Subscribed {
                characteristic: characteristic.deep_view(),
            },
            OperationOutcome::Read { characteristic, data, timestamp } => OperationOutcomeView::Read {
                characteristic: characteristic.deep_view(),
                data: data@,
                timestamp: timestamp@,
            },
            OperationOutcome::Written { characteristic, data, timestamp } => OperationOutcomeView::Written {
                characteristic: characteristic.deep_view(),
                data: data@,
                timestamp: timestamp@,
            },
            OperationOutcome::DescriptorRead { descriptor, data, timestamp } => OperationOutcomeView::DescriptorRead {
                descriptor: descriptor.deep_view(),
                data: data@,
                timestamp: timestamp@,
            },
            OperationOutcome::DescriptorWritten { descriptor, data, timestamp } => OperationOutcomeView::DescriptorWritten {
                descriptor: descriptor.deep_view(),
                data: data@,
                timestamp: timestamp@,
            },
        }
    }
}

/// What happened.
#[derive(Debug)]
#[allow(inconsistent_fields)]
pub enum WorkerInput {
    /// The user interface asks for something.
    Command(BleCommand),
    /// The adapter that was to be opened is open, or could not be opened.
    AdapterOpened {
        index: usize,
        error: Option<String>,
    },
    /// The scan has started, or could not be started.
    ScanStarted {
        error: Option<String>,
    },
    /// The scan has stopped, or could not be stopped.
    ScanStopped {
        error: Option<String>,
    },
    /// The peripheral that was looked for is known, or is not.
    PeripheralFound {
        peripheral_id: String,
        reconnect: bool,
        error: Option<String>,
    },
    /// A connection attempt succeeded.
    Connected {
        established: Established,
    },
    /// A connection attempt failed.
    ConnectFailed {
        reconnect: bool,
        attempt: u32,
        error: String,
    },
    /// The peripheral was let go, as the user asked.
    DisconnectFinished {
        error: Option<String>,
    },
    /// A device was seen or changed.
    DeviceSeen {
        peripheral_id: String,
    },
    /// The properties of a device were read.
    DeviceRead {
        device: DeviceInfo,
    },
    Rssi {
        peripheral_id: String,
        rssi: i16,
    },
    /// A device went away.
    DeviceDisconnected {
        peripheral_id: String,
    },
    /// The services of a device changed.
    ServicesModified {
        peripheral_id: String,
    },
    /// The services of the connected device were read again.
    ServicesDiscovered {
        snapshot: GattSnapshot,
    },
    /// The services of the connected device could not be read again.
    DiscoveryFailed {
        error: String,
    },
    /// The adapter was switched on or off.
    StateUpdate {
        state: CentralState,
    },
    /// The pause before a reconnect is over.
    ReconnectDue,
    OperationFinished(OperationOutcome),
}

/// The mathematical value of [`WorkerInput`].
#[verifier::ext_equal]
#[allow(inconsistent_fields)]
pub enum WorkerInputView {
    Command(BleCommandView),
    AdapterOpened { index: usize, error: Option<Seq<char>> },
    ScanStarted { error: Option<Seq<char>> },
    ScanStopped { error: Option<Seq<char>> },
    PeripheralFound { peripheral_id: Seq<char>, reconnect: bool, error: Option<Seq<char>> },
    Connected { established: EstablishedView },
    ConnectFailed { reconnect: bool, attempt: u32, error: Seq<char> },
    DisconnectFinished { error: Option<Seq<char>> },
    DeviceSeen { peripheral_id: Seq<char> },
    DeviceRead { device: DeviceInfoView },
    Rssi { peripheral_id: Seq<char>, rssi: i16 },
    DeviceDisconnected { peripheral_id: Seq<char> },
    ServicesModified { peripheral_id: Seq<char> },
    ServicesDiscovered { snapshot: GattSnapshotView },
    DiscoveryFailed { error: Seq<char> },
    StateUpdate { state: CentralState },
    ReconnectDue,
    OperationFinished(OperationOutcomeView),
}

impl DeepView for WorkerInput {
    type V = WorkerInputView;

    open spec fn deep_view(&self) -> WorkerInputView {
        match *self {
            WorkerInput::Command(value) => WorkerInputView::Command(value.deep_view()),
            WorkerInput::AdapterOpened { index, error } => WorkerInputView::AdapterOpened {
                index,
                error: error.deep_view(),
            },
            WorkerInput::ScanStarted { error } => WorkerInputView::ScanStarted {
                error: error.deep_view(),
            },
            WorkerInput::ScanStopped { error } => WorkerInputView::ScanStopped {
                error: error.deep_view(),
            },
            WorkerInput::PeripheralFound { peripheral_id, reconnect, error } => WorkerInputView::PeripheralFound {
                peripheral_id: peripheral_id@,
                reconnect,
                error: error.deep_view(),
            },
            WorkerInput::Connected { established } => WorkerInputView::Connected {
                established: established.deep_view(),
            },
            WorkerInput::ConnectFailed { reconnect, attempt, error } => WorkerInputView::ConnectFailed {
                reconnect,
                attempt,
                error: error@,
            },
            WorkerInput::DisconnectFinished { error } => WorkerInputView::DisconnectFinished {
                error: error.deep_view(),
            },
            WorkerInput::DeviceSeen { peripheral_id } => WorkerInputView::DeviceSeen {
                peripheral_id: peripheral_id@,
            },
            WorkerInput::DeviceRead { device } => WorkerInputView::DeviceRead {
                device: device.deep_view(),
            },
            WorkerInput::Rssi { peripheral_id, rssi } => WorkerInputView::Rssi {
                peripheral_id: peripheral_id@,
                rssi,
            },
            WorkerInput::DeviceDisconnected { peripheral_id } => WorkerInputView::DeviceDisconnected {
                peripheral_id: peripheral_id@,
            },
            WorkerInput::ServicesModified { peripheral_id } => WorkerInputView::ServicesModified {
                peripheral_id: peripheral_id@,
            },
            WorkerInput::ServicesDiscovered { snapshot } => WorkerInputView::ServicesDiscovered {
                snapshot: snapshot.deep_view(),
            },
            WorkerInput::DiscoveryFailed { error } => WorkerInputView::DiscoveryFailed {
                error: error@,
            },
            WorkerInput::StateUpdate { state } => WorkerInputView::StateUpdate {
                state,
            },
            WorkerInput::ReconnectDue => WorkerInputView::ReconnectDue,
            WorkerInput::OperationFinished(value) => WorkerInputView::OperationFinished(value.deep_view()),
        }
    }
}

/// What is to be done.
#[derive(Debug)]
pub enum WorkerAction {
    /// Report to the user interface.
    Emit(BleEvent),
    /// Stop the scan; the outcome does not matter.
    StopScanQuietly,
    /// Stop the scan and hand back the outcome.
    StopScan,
    /// Start a scan for services and hand back the outcome.
    StartScan {
        services: Vec<u128>,
    },
    /// Report every device that the adapter knows.
    ReportKnownDevices,
    /// Stop forwarding notifications.
    AbortNotifications,
    /// Let the peripheral go; the outcome does not matter.
    DropPeripheral,
    /// Let the peripheral go and hand back the outcome.
    Disconnect,
    /// Open another adapter and hand back the outcome.
    OpenAdapter {
        index: usize,
    },
    /// Look for a peripheral and hand back the outcome.
    FindPeripheral {
        peripheral_id: String,
        reconnect: bool,
    },
    /// Connect to the peripheral, read its services and hand back the outcome.
    Establish {
        reconnect: bool,
        attempt: u32,
    },
    /// Forward notifications, unless that is being done.
    EnsureNotifications,
    /// Hand back that a reconnect is due after a pause.
    ArmReconnect {
        delay_ms: u64,
    },
    /// Read the properties of a device and hand them back.
    RefreshDevice {
        peripheral_id: String,
    },
    /// Read the services of the connected device again and hand back the outcome.
    DiscoverServices,
    /// Carry out a command on the connected device and hand back the outcome.
    Operate(BleCommand),
    /// End the worker.
    Stop,
}

/// The mathematical value of [`WorkerAction`].
#[verifier::ext_equal]
pub enum WorkerActionView {
    Emit(BleEventView),
    StopScanQuietly,
    StopScan,
    StartScan { services: Seq<u128> },
    ReportKnownDevices,
    AbortNotifications,
    DropPeripheral,
    Disconnect,
    OpenAdapter { index: usize },
    FindPeripheral { peripheral_id: Seq<char>, reconnect: bool },
    Establish { reconnect: bool, attempt: u32 },
    EnsureNotifications,
    ArmReconnect { delay_ms: u64 },
    RefreshDevice { peripheral_id: Seq<char> },
    DiscoverServices,
    Operate(BleCommandView),
    Stop,
}

impl DeepView for WorkerAction {
    type V = WorkerActionView;

    open spec fn deep_view(&self) -> WorkerActionView {
        match *self {
            WorkerAction::Emit(value) => WorkerActionView::Emit(value.deep_view()),
            WorkerAction::StopScanQuietly => WorkerActionView::StopScanQuietly,
            WorkerAction::StopScan => WorkerActionView::StopScan,
            WorkerAction::StartScan { services } => WorkerActionView::StartScan {
                services: services@,
            },
            WorkerAction::ReportKnownDevices => WorkerActionView::ReportKnownDevices,
            WorkerAction::AbortNotifications => WorkerActionView::AbortNotifications,
            WorkerAction::DropPeripheral => WorkerActionView::DropPeripheral,
            WorkerAction::Disconnect => WorkerActionView::Disconnect,
            WorkerAction::OpenAdapter { index } => WorkerActionView::OpenAdapter {
                index,
            },
            WorkerAction::FindPeripheral { peripheral_id, reconnect } => WorkerActionView::FindPeripheral {
                peripheral_id: peripheral_id@,
                reconnect,
            },
            WorkerAction::Establish { reconnect, attempt } => WorkerActionView::Establish {
                reconnect,
                attempt,
            },
            WorkerAction::EnsureNotifications => WorkerActionView::EnsureNotifications,
            WorkerAction::ArmReconnect { delay_ms } => WorkerActionView::ArmReconnect {
                delay_ms,
            },
            WorkerAction::RefreshDevice { peripheral_id } => WorkerActionView::RefreshDevice {
                peripheral_id: peripheral_id@,
            },
            WorkerAction::DiscoverServices => WorkerActionView::DiscoverServices,
            WorkerAction::Operate(value) => WorkerActionView::Operate(value.deep_view()),
            WorkerAction::Stop => WorkerActionView::Stop,
        }
    }
}

/// What the worker knows.
#[derive(Debug)]
pub struct WorkerState {
    pub adapters: Vec<AdapterInfo>,
    pub selected_adapter: usize,
    pub scanning: bool,
    /// The peripheral that is held.
    pub peripheral: Option<String>,
    pub connected: bool,
    /// The device that the user wants to be connected.
    pub target_id: Option<String>,
    pub auto_reconnect: bool,
    pub reconnect_attempt: u32,
    /// Whether a reconnect is due at some time.
    pub reconnect_pending: bool,
}

/// The mathematical value of [`WorkerState`].
#[verifier::ext_equal]
pub struct WorkerStateView {
    pub adapters: Seq<AdapterInfoView>,
    pub selected_adapter: usize,
    pub scanning: bool,
    pub peripheral: Option<Seq<char>>,
    pub connected: bool,
    pub target_id: Option<Seq<char>>,
    pub auto_reconnect: bool,
    pub reconnect_attempt: u32,
    pub reconnect_pending: bool,
}

impl DeepView for WorkerState {
    type V = WorkerStateView;

    open spec fn deep_view(&self) -> WorkerStateView {
        WorkerStateView {
            adapters: self.adapters.deep_view(),
            selected_adapter: self.selected_adapter,
            scanning: self.scanning,
            peripheral: self.peripheral.deep_view(),
            connected: self.connected,
            target_id: self.target_id.deep_view(),
            auto_reconnect: self.auto_reconnect,
            reconnect_attempt: self.reconnect_attempt,
            reconnect_pending: self.reconnect_pending,
        }
    }
}

/// What holds of the worker at any time: there is a selected adapter, a connection belongs to a
/// peripheral, and a reconnect is due only while it is wanted and nothing is connected.
pub open spec fn worker_wf(s: WorkerStateView) -> bool {
    &&& s.selected_adapter < s.adapters.len()
    &&& s.connected ==> s.peripheral is Some
    &&& s.reconnect_pending ==> s.auto_reconnect && !s.connected && s.target_id is Some
}

/// What may happen in a state: outcomes only come for actions.
pub open spec fn expected(s: WorkerStateView, input: WorkerInputView) -> bool {
    match input {
        WorkerInputView::AdapterOpened { index, .. } => index < s.adapters.len(),
        WorkerInputView::PeripheralFound { reconnect, .. } => reconnect ==> awaits_reconnect(s),
        WorkerInputView::Connected { .. } => s.peripheral is Some && !s.reconnect_pending,
        WorkerInputView::ConnectFailed { reconnect, .. } => s.target_id is Some && (reconnect
            ==> s.auto_reconnect),
        _ => true,
    }
}

/// Whether a reconnect is wanted.
pub open spec fn awaits_reconnect(s: WorkerStateView) -> bool {
    s.auto_reconnect && !s.connected && s.target_id is Some
}

/// A worker on the first adapter.
pub open spec fn fresh_worker(adapters: Seq<AdapterInfoView>) -> WorkerStateView {
    WorkerStateView {
        adapters,
        selected_adapter: 0,
        scanning: false,
        peripheral: None,
        connected: false,
        target_id: None,
        auto_reconnect: true,
        reconnect_attempt: 0,
        reconnect_pending: false,
    }
}

/// The pause before the reconnect with the given number: it doubles from one second up to the
/// longest pause.
pub open spec fn reconnect_delay(attempt: u32) -> u64 {
    if attempt <= 1 {
        1_000
    } else if attempt == 2 {
        2_000
    } else if attempt == 3 {
        4_000
    } else if attempt == 4 {
        8_000
    } else {
        MAX_RECONNECT_DELAY_MS
    }
}

/// The number of the next reconnect.
pub open spec fn next_attempt(attempt: u32) -> u32 {
    if attempt == u32::MAX {
        u32::MAX
    } else {
        (attempt + 1) as u32
    }
}

/// The worker with the next reconnect scheduled.
pub open spec fn with_reconnect(s: WorkerStateView) -> WorkerStateView {
    WorkerStateView {
        reconnect_attempt: next_attempt(s.reconnect_attempt),
        reconnect_pending: true,
        ..s
    }
}

/// What is done to schedule a reconnect.
pub open spec fn reconnect_actions(s: WorkerStateView) -> Seq<WorkerActionView> {
    let attempt = next_attempt(s.reconnect_attempt);
    let delay_ms = reconnect_delay(attempt);
    seq![
        WorkerActionView::ArmReconnect { delay_ms },
        WorkerActionView::Emit(BleEventView::ReconnectScheduled { attempt, delay_ms }),
    ]
}

/// Reports an error.
pub open spec fn error_action(message: Seq<char>) -> WorkerActionView {
    WorkerActionView::Emit(BleEventView::Error(message))
}

/// What is done to let go of everything that belongs to the current device.
pub open spec fn release_actions(s: WorkerStateView) -> Seq<WorkerActionView> {
    if s.peripheral is Some {
        seq![WorkerActionView::AbortNotifications, WorkerActionView::DropPeripheral]
    } else {
        seq![WorkerActionView::AbortNotifications]
    }
}

/// What is done to connect to a peripheral.
pub open spec fn connect_actions(
    peripheral_id: Seq<char>,
    reconnect: bool,
    attempt: u32,
) -> Seq<WorkerActionView> {
    seq![
        WorkerActionView::Emit(BleEventView::Connecting { peripheral_id, reconnect, attempt }),
        WorkerActionView::Establish { reconnect, attempt },
    ]
}

/// The number under which a due reconnect is reported.
pub open spec fn shown_attempt(s: WorkerStateView) -> u32 {
    if s.reconnect_attempt >= 1 {
        s.reconnect_attempt
    } else {
        1
    }
}

/// The worker and its actions after the command to use another adapter.
pub open spec fn after_select(s: WorkerStateView, index: usize) -> (
    WorkerStateView,
    Seq<WorkerActionView>,
) {
    if index >= s.adapters.len() {
        (
            s,
            seq![error_action("Adapter index "@ + text::decimal(index as nat) + " 不存在"@)],
        )
    } else if index == s.selected_adapter {
        (s, Seq::empty())
    } else {
        let scan_actions: Seq<WorkerActionView> = if s.scanning {
            seq![
                WorkerActionView::StopScanQuietly,
                WorkerActionView::Emit(BleEventView::ScanStopped),
            ]
        } else {
            Seq::empty()
        };
        (
            WorkerStateView {
                scanning: false,
                peripheral: None,
                connected: false,
                target_id: None,
                reconnect_attempt: 0,
                reconnect_pending: false,
                ..s
            },
            scan_actions + release_actions(s) + seq![
                WorkerActionView::Emit(
                    BleEventView::Disconnected { peripheral_id: None, unexpected: false },
                ),
                WorkerActionView::OpenAdapter { index },
            ],
        )
    }
}

/// The worker and its actions after the command to scan, given what the filters name.
pub open spec fn after_start_scan(
    s: WorkerStateView,
    services: Result<Seq<u128>, Seq<char>>,
) -> (WorkerStateView, Seq<WorkerActionView>) {
    if s.scanning {
        (s, Seq::empty())
    } else {
        match services {
            Ok(services) => (s, seq![WorkerActionView::StartScan { services }]),
            Err(message) => (s, seq![error_action("扫描 Service UUID 无效: "@ + message)]),
        }
    }
}

/// The worker and its actions after the command to connect.
pub open spec fn after_connect(s: WorkerStateView, peripheral_id: Seq<char>) -> (
    WorkerStateView,
    Seq<WorkerActionView>,
) {
    let calm = WorkerStateView { reconnect_attempt: 0, reconnect_pending: false, ..s };
    if s.peripheral == Some(peripheral_id) {
        (
            WorkerStateView { target_id: Some(peripheral_id), ..calm },
            connect_actions(peripheral_id, false, 0),
        )
    } else {
        (
            WorkerStateView { peripheral: None, connected: false, ..calm },
            release_actions(s) + seq![
                WorkerActionView::FindPeripheral { peripheral_id, reconnect: false },
            ],
        )
    }
}

/// The worker and its actions after the command to disconnect.
pub open spec fn after_disconnect(s: WorkerStateView) -> (WorkerStateView, Seq<WorkerActionView>) {
    let calm = WorkerStateView {
        target_id: None,
        reconnect_attempt: 0,
        reconnect_pending: false,
        ..s
    };
    if s.peripheral is Some {
        (calm, seq![WorkerActionView::AbortNotifications, WorkerActionView::Disconnect])
    } else {
        (
            WorkerStateView { connected: false, ..calm },
            seq![
                WorkerActionView::AbortNotifications,
                WorkerActionView::Emit(
                    BleEventView::Disconnected { peripheral_id: None, unexpected: false },
                ),
            ],
        )
    }
}

/// The worker and its actions after automatic reconnects were switched on or off.
pub open spec fn after_auto_reconnect(s: WorkerStateView, enabled: bool) -> (
    WorkerStateView,
    Seq<WorkerActionView>,
) {
    let status = WorkerActionView::Emit(
        BleEventView::Status(
            i18n::plain_message(
                if enabled {
                    "自动重连已开启"@
                } else {
                    "自动重连已关闭"@
                },
            ),
        ),
    );
    let changed = WorkerStateView { auto_reconnect: enabled, ..s };
    if !enabled {
        (
            WorkerStateView { reconnect_attempt: 0, reconnect_pending: false, ..changed },
            seq![status],
        )
    } else if !s.connected && s.peripheral is Some && s.target_id is Some {
        (with_reconnect(changed), reconnect_actions(changed).push(status))
    } else {
        (changed, seq![status])
    }
}

/// The actions of a command on the connected device.
pub open spec fn after_operation(s: WorkerStateView, command: BleCommandView) -> Seq<
    WorkerActionView,
> {
    if s.connected && s.peripheral is Some {
        seq![WorkerActionView::Operate(command)]
    } else {
        seq![error_action("当前没有已连接 BLE 设备"@)]
    }
}

/// The actions that end the worker.
pub open spec fn after_shutdown(s: WorkerStateView) -> Seq<WorkerActionView> {
    let scan_actions: Seq<WorkerActionView> = if s.scanning {
        seq![WorkerActionView::StopScanQuietly]
    } else {
        Seq::empty()
    };
    scan_actions + release_actions(s) + seq![WorkerActionView::Stop]
}

/// The worker and its actions after a command.
pub open spec fn after_command(s: WorkerStateView, command: BleCommandView) -> (
    WorkerStateView,
    Seq<WorkerActionView>,
) {
    match command {
        BleCommandView::SelectAdapter { index } => after_select(s, index),
        BleCommandView::StartScan { service_uuids } => after_start_scan(
            s,
            scan::scan_services(service_uuids),
        ),
        BleCommandView::StopScan => (
            s,
            if s.scanning {
                seq![WorkerActionView::StopScan]
            } else {
                Seq::empty()
            },
        ),
        BleCommandView::Connect { peripheral_id } => after_connect(s, peripheral_id),
        BleCommandView::Disconnect => after_disconnect(s),
        BleCommandView::SetAutoReconnect { enabled } => after_auto_reconnect(s, enabled),
        BleCommandView::Shutdown => (s, after_shutdown(s)),
        _ => (s, after_operation(s, command)),
    }
}

/// The worker and its actions after another adapter was opened.
pub open spec fn after_adapter(s: WorkerStateView, index: usize, error: Option<Seq<char>>) -> (
    WorkerStateView,
    Seq<WorkerActionView>,
) {
    match error {
        None => (
            WorkerStateView { selected_adapter: index, ..s },
            seq![
                WorkerActionView::Emit(BleEventView::DevicesCleared),
                WorkerActionView::Emit(
                    BleEventView::AdapterSelected { adapter: s.adapters[index as int] },
                ),
            ],
        ),
        Some(message) => (s, seq![error_action("切换 Adapter 失败: "@ + message)]),
    }
}

/// The worker and its actions after a peripheral was looked for.
pub open spec fn after_found(
    s: WorkerStateView,
    peripheral_id: Seq<char>,
    reconnect: bool,
    error: Option<Seq<char>>,
) -> (WorkerStateView, Seq<WorkerActionView>) {
    match error {
        None => {
            let held = WorkerStateView { peripheral: Some(peripheral_id), ..s };
            if reconnect {
                (held, connect_actions(peripheral_id, true, shown_attempt(s)))
            } else {
                (
                    WorkerStateView { target_id: Some(peripheral_id), ..held },
                    connect_actions(peripheral_id, false, 0),
                )
            }
        },
        Some(message) => if reconnect {
            (
                with_reconnect(s),
                seq![
                    WorkerActionView::Emit(
                        BleEventView::ReconnectFailed {
                            attempt: s.reconnect_attempt,
                            error: message,
                        },
                    ),
                ] + reconnect_actions(s),
            )
        } else {
            (s, seq![error_action(message)])
        },
    }
}

/// The worker and its actions after a connection attempt succeeded.
pub open spec fn after_connected(s: WorkerStateView, established: EstablishedView) -> (
    WorkerStateView,
    Seq<WorkerActionView>,
) {
    let peripheral_id = s.peripheral->0;
    let name = match established.name {
        Some(name) => name,
        None => UNKNOWN_NAME@,
    };
    (
        WorkerStateView { connected: true, reconnect_attempt: 0, ..s },
        seq![
            WorkerActionView::Emit(
                BleEventView::Connected { peripheral_id, name, mtu: established.mtu },
            ),
            WorkerActionView::Emit(BleEventView::GattDiscovered { snapshot: established.snapshot }),
            WorkerActionView::EnsureNotifications,
        ],
    )
}

/// The worker and its actions after a connection attempt failed.
pub open spec fn after_failure(
    s: WorkerStateView,
    reconnect: bool,
    attempt: u32,
    error: Seq<char>,
) -> (WorkerStateView, Seq<WorkerActionView>) {
    let lost = WorkerStateView { connected: false, ..s };
    if reconnect {
        (
            with_reconnect(lost),
            seq![
                WorkerActionView::Emit(BleEventView::ReconnectFailed { attempt, error }),
            ] + reconnect_actions(lost),
        )
    } else if s.auto_reconnect {
        (
            with_reconnect(lost),
            seq![error_action("连接失败: "@ + error)] + reconnect_actions(lost),
        )
    } else {
        (lost, seq![error_action("连接失败: "@ + error)])
    }
}

/// The worker and its actions after the peripheral was let go.
pub open spec fn after_released(s: WorkerStateView, error: Option<Seq<char>>) -> (
    WorkerStateView,
    Seq<WorkerActionView>,
) {
    let gone = WorkerActionView::Emit(
        BleEventView::Disconnected { peripheral_id: s.peripheral, unexpected: false },
    );
    (
        WorkerStateView { peripheral: None, connected: false, ..s },
        match error {
            Some(message) => seq![error_action("断开 BLE 设备失败: "@ + message), gone],
            None => seq![gone],
        },
    )
}

/// The worker and its actions after a device went away.
pub open spec fn after_lost(s: WorkerStateView, peripheral_id: Seq<char>) -> (
    WorkerStateView,
    Seq<WorkerActionView>,
) {
    if s.peripheral == Some(peripheral_id) && s.connected {
        let lost = WorkerStateView { connected: false, ..s };
        let gone = WorkerActionView::Emit(
            BleEventView::Disconnected { peripheral_id: Some(peripheral_id), unexpected: true },
        );
        if s.auto_reconnect && s.target_id is Some {
            (with_reconnect(lost), seq![gone] + reconnect_actions(lost))
        } else {
            (lost, seq![gone])
        }
    } else {
        (s, Seq::empty())
    }
}

/// The worker and its actions when a reconnect is due.
pub open spec fn after_due(s: WorkerStateView) -> (WorkerStateView, Seq<WorkerActionView>) {
    let due = WorkerStateView { reconnect_pending: false, ..s };
    match s.target_id {
        Some(target) if s.auto_reconnect && !s.connected => match s.peripheral {
            Some(peripheral_id) => (due, connect_actions(peripheral_id, true, shown_attempt(s))),
            None => (
                due,
                seq![WorkerActionView::FindPeripheral { peripheral_id: target, reconnect: true }],
            ),
        },
        _ => (due, Seq::empty()),
    }
}

/// What is reported of an operation.
pub open spec fn outcome_event(outcome: OperationOutcomeView) -> BleEventView {
    match outcome {
        OperationOutcomeView::Failed(message) => BleEventView::Error(message),
        OperationOutcomeView::SubscribedAll { count } => BleEventView::Status(
            LocalizedTextView::Message {
                key: "已订阅 {count} 个 Notify/Indicate Characteristic"@,
                args: seq![text::decimal(count as nat)],
            },
        ),
        OperationOutcomeView::Subscribed { characteristic } => BleEventView::Subscribed {
            characteristic,
        },
        OperationOutcomeView::Read { characteristic, data, timestamp } => {
            BleEventView::ReadResult { characteristic, data, timestamp }
        },
        OperationOutcomeView::Written { characteristic, data, timestamp } => {
            BleEventView::WriteComplete { characteristic, data, timestamp }
        },
        OperationOutcomeView::DescriptorRead { descriptor, data, timestamp } => {
            BleEventView::DescriptorReadResult { descriptor, data, timestamp }
        },
        OperationOutcomeView::DescriptorWritten { descriptor, data, timestamp } => {
            BleEventView::DescriptorWriteComplete { descriptor, data, timestamp }
        },
    }
}

/// The worker and its actions after an input.
pub open spec fn stepped(s: WorkerStateView, input: WorkerInputView) -> (
    WorkerStateView,
    Seq<WorkerActionView>,
) {
    match input {
        WorkerInputView::Command(command) => after_command(s, command),
        WorkerInputView::AdapterOpened { index, error } => after_adapter(s, index, error),
        WorkerInputView::ScanStarted { error } => match error {
            None => (
                WorkerStateView { scanning: true, ..s },
                seq![
                    WorkerActionView::Emit(BleEventView::ScanStarted),
                    WorkerActionView::ReportKnownDevices,
                ],
            ),
            Some(message) => (s, seq![error_action("启动 BLE 扫描失败: "@ + message)]),
        },
        WorkerInputView::ScanStopped { error } => match error {
            None => (
                WorkerStateView { scanning: false, ..s },
                seq![WorkerActionView::Emit(BleEventView::ScanStopped)],
            ),
            Some(message) => (s, seq![error_action("停止 BLE 扫描失败: "@ + message)]),
        },
        WorkerInputView::PeripheralFound { peripheral_id, reconnect, error } => after_found(
            s,
            peripheral_id,
            reconnect,
            error,
        ),
        WorkerInputView::Connected { established } => after_connected(s, established),
        WorkerInputView::ConnectFailed { reconnect, attempt, error } => after_failure(
            s,
            reconnect,
            attempt,
            error,
        ),
        WorkerInputView::DisconnectFinished { error } => after_released(s, error),
        WorkerInputView::DeviceSeen { peripheral_id } => (
            s,
            seq![WorkerActionView::RefreshDevice { peripheral_id }],
        ),
        WorkerInputView::DeviceRead { device } => (
            s,
            seq![WorkerActionView::Emit(BleEventView::DeviceUpsert { device })],
        ),
        WorkerInputView::Rssi { peripheral_id, rssi } => (
            s,
            seq![WorkerActionView::Emit(BleEventView::DeviceRssi { peripheral_id, rssi })],
        ),
        WorkerInputView::DeviceDisconnected { peripheral_id } => after_lost(s, peripheral_id),
        WorkerInputView::ServicesModified { peripheral_id } => (
            s,
            if s.connected && s.peripheral == Some(peripheral_id) {
                seq![WorkerActionView::DiscoverServices]
            } else {
                Seq::empty()
            },
        ),
        WorkerInputView::ServicesDiscovered { snapshot } => (
            s,
            seq![WorkerActionView::Emit(BleEventView::GattDiscovered { snapshot })],
        ),
        WorkerInputView::DiscoveryFailed { error } => (
            s,
            seq![error_action("刷新 GATT 服务失败: "@ + error)],
        ),
        WorkerInputView::StateUpdate { state } => (
            s,
            seq![WorkerActionView::Emit(BleEventView::AdapterState { state: state_label(state) })],
        ),
        WorkerInputView::ReconnectDue => after_due(s),
        WorkerInputView::OperationFinished(outcome) => (
            s,
            seq![WorkerActionView::Emit(outcome_event(outcome))],
        ),
    }
}

fn push_action(actions: &mut Vec<WorkerAction>, action: WorkerAction)
    ensures
        final(actions).deep_view() == old(actions).deep_view().push(action.deep_view()),
{
    let ghost before = actions.deep_view();
    actions.push(action);
    assert(actions.deep_view() =~= before.push(action.deep_view()));
}

fn no_actions() -> (r: Vec<WorkerAction>)
    ensures
        r.deep_view() == Seq::<WorkerActionView>::empty(),
{
    let r: Vec<WorkerAction> = Vec::new();
    assert(r.deep_view() =~= Seq::<WorkerActionView>::empty());
    r
}

fn one_action(action: WorkerAction) -> (r: Vec<WorkerAction>)
    ensures
        r.deep_view() == seq![action.deep_view()],
{
    let mut r = no_actions();
    push_action(&mut r, action);
    r
}

fn two_actions(first: WorkerAction, second: WorkerAction) -> (r: Vec<WorkerAction>)
    ensures
        r.deep_view() == seq![first.deep_view(), second.deep_view()],
{
    let mut r = one_action(first);
    push_action(&mut r, second);
    r
}

fn report_error(start: &str, message: &str) -> (r: Vec<WorkerAction>)
    ensures
        r.deep_view() == seq![error_action(start@ + message@)],
{
    one_action(WorkerAction::Emit(BleEvent::Error(text::joined(start, message))))
}

/// A message followed by its cause.
pub fn with_cause(message: &str, cause: &str) -> (r: String)
    ensures
        r@ == message@ + ": "@ + cause@,
{
    let head = text::joined(message, ": ");
    text::joined(head.as_str(), cause)
}

fn same_id(held: &Option<String>, id: &String) -> (r: bool)
    ensures
        r == (held.deep_view() == Some(id@)),
{
    match held {
        Some(value) => *value == *id,
        None => false,
    }
}

impl WorkerState {
    /// A worker on the first adapter, and its first report; without an adapter there is no
    /// worker.
    pub fn start(adapters: Vec<AdapterInfo>) -> (r: Result<(WorkerState, BleEvent), String>)
        ensures
            match r {
                Ok((state, event)) => adapters@.len() > 0 && state.deep_view() == fresh_worker(
                    adapters.deep_view(),
                ) && worker_wf(state.deep_view()) && event.deep_view() == (BleEventView::Ready {
                    adapters: adapters.deep_view(),
                    selected_adapter: 0,
                }),
                Err(message) => adapters@.len() == 0 && message@ == "没有找到 Bluetooth Adapter"@,
            },
    {
        if adapters.len() == 0 {
            return Err("没有找到 Bluetooth Adapter".to_owned());
        }
        let infos = adapters.clone();
        assert(infos.deep_view() =~= adapters.deep_view());
        let event = BleEvent::Ready { adapters: infos, selected_adapter: 0 };
        let state = WorkerState {
            adapters,
            selected_adapter: 0,
            scanning: false,
            peripheral: None,
            connected: false,
            target_id: None,
            auto_reconnect: true,
            reconnect_attempt: 0,
            reconnect_pending: false,
        };
        Ok((state, event))
    }

    /// Whether something may happen in this state.
    pub fn expects(&self, input: &WorkerInput) -> (r: bool)
        ensures
            r == expected(self.deep_view(), input.deep_view()),
    {
        match input {
            WorkerInput::AdapterOpened { index, .. } => *index < self.adapters.len(),
            WorkerInput::PeripheralFound { reconnect, .. } => !*reconnect || (self.auto_reconnect
                && !self.connected && self.target_id.is_some()),
            WorkerInput::Connected { .. } => self.peripheral.is_some() && !self.reconnect_pending,
            WorkerInput::ConnectFailed { reconnect, .. } => self.target_id.is_some() && (!*reconnect
                || self.auto_reconnect),
            _ => true,
        }
    }

    /// Takes what happened and returns what is to be done next.
    pub fn step(&mut self, input: WorkerInput) -> (r: Vec<WorkerAction>)
        requires
            worker_wf(old(self).deep_view()),
            expected(old(self).deep_view(), input.deep_view()),
        ensures
            (final(self).deep_view(), r.deep_view()) == stepped(
                old(self).deep_view(),
                input.deep_view(),
            ),
            worker_wf(final(self).deep_view()),
    {
        match input {
            WorkerInput::Command(command) => self.on_command(command),
            WorkerInput::AdapterOpened { index, error } => self.on_adapter_opened(index, error),
            WorkerInput::ScanStarted { error } => self.on_scan_started(error),
            WorkerInput::ScanStopped { error } => self.on_scan_stopped(error),
            WorkerInput::PeripheralFound { peripheral_id, reconnect, error } => {
                self.on_peripheral_found(peripheral_id, reconnect, error)
            },
            WorkerInput::Connected { established } => self.on_connected(established),
            WorkerInput::ConnectFailed { reconnect, attempt, error } => {
                self.on_connect_failed(reconnect, attempt, error)
            },
            WorkerInput::DisconnectFinished { error } => self.on_disconnect_finished(error),
            WorkerInput::DeviceSeen { peripheral_id } => one_action(
                WorkerAction::RefreshDevice { peripheral_id },
            ),
            WorkerInput::DeviceRead { device } => one_action(
                WorkerAction::Emit(BleEvent::DeviceUpsert { device }),
            ),
            WorkerInput::Rssi { peripheral_id, rssi } => one_action(
                WorkerAction::Emit(BleEvent::DeviceRssi { peripheral_id, rssi }),
            ),
            WorkerInput::DeviceDisconnected { peripheral_id } => {
                self.on_device_disconnected(peripheral_id)
            },
            WorkerInput::ServicesModified { peripheral_id } => {
                if self.connected && same_id(&self.peripheral, &peripheral_id) {
                    one_action(WorkerAction::DiscoverServices)
                } else {
                    no_actions()
                }
            },
            WorkerInput::ServicesDiscovered { snapshot } => one_action(
                WorkerAction::Emit(BleEvent::GattDiscovered { snapshot }),
            ),
            WorkerInput::DiscoveryFailed { error } => report_error(
                "刷新 GATT 服务失败: ",
                error.as_str(),
            ),
            WorkerInput::StateUpdate { state } => one_action(
                WorkerAction::Emit(
                    BleEvent::AdapterState { state: central_state_label(state).to_owned() },
                ),
            ),
            WorkerInput::ReconnectDue => self.on_reconnect_due(),
            WorkerInput::OperationFinished(outcome) => one_action(
                WorkerAction::Emit(operation_event(outcome)),
            ),
        }
    }

    fn on_command(&mut self, command: BleCommand) -> (r: Vec<WorkerAction>)
        requires
            worker_wf(old(self).deep_view()),
        ensures
            (final(self).deep_view(), r.deep_view()) == after_command(
                old(self).deep_view(),
                command.deep_view(),
            ),
            worker_wf(final(self).deep_view()),
    {
        match command {
            BleCommand::SelectAdapter { index } => self.select_adapter(index),
            BleCommand::StartScan { service_uuids } => {
                let slice = service_uuids.as_slice();
                assert(slice.deep_view() =~= service_uuids.deep_view());
                let services = scan::parse_scan_services(slice);
                self.start_scan(services)
            },
            BleCommand::StopScan => if self.scanning {
                one_action(WorkerAction::StopScan)
            } else {
                no_actions()
            },
            BleCommand::Connect { peripheral_id } => self.connect(peripheral_id),
            BleCommand::Disconnect => self.disconnect(),
            BleCommand::SetAutoReconnect { enabled } => self.set_auto_reconnect(enabled),
            BleCommand::Shutdown => self.shutdown(),
            other => self.operate(other),
        }
    }

    /// The command to scan, given what its filters name.
    pub fn start_scan(&mut self, services: Result<Vec<u128>, String>) -> (r: Vec<WorkerAction>)
        ensures
            (final(self).deep_view(), r.deep_view()) == after_start_scan(
                old(self).deep_view(),
                match services {
                    Ok(numbers) => Ok(numbers@),
                    Err(message) => Err(message@),
                },
            ),
    {
        if self.scanning {
            return no_actions();
        }
        match services {
            Ok(services) => one_action(WorkerAction::StartScan { services }),
            Err(message) => report_error("扫描 Service UUID 无效: ", message.as_str()),
        }
    }

    fn select_adapter(&mut self, index: usize) -> (r: Vec<WorkerAction>)
        requires
            worker_wf(old(self).deep_view()),
        ensures
            (final(self).deep_view(), r.deep_view()) == after_select(old(self).deep_view(), index),
            worker_wf(final(self).deep_view()),
    {
        if index >= self.adapters.len() {
            let number = text::decimal_text(index as u64);
            let head = text::joined("Adapter index ", number.as_str());
            return report_error(head.as_str(), " 不存在");
        }
        if index == self.selected_adapter {
            return no_actions();
        }
        let ghost before = self.deep_view();
        let mut actions = no_actions();
        if self.scanning {
            push_action(&mut actions, WorkerAction::StopScanQuietly);
            push_action(&mut actions, WorkerAction::Emit(BleEvent::ScanStopped));
        }
        self.release(&mut actions);
        self.scanning = false;
        self.peripheral = None;
        self.connected = false;
        self.target_id = None;
        self.reconnect_attempt = 0;
        self.reconnect_pending = false;
        push_action(
            &mut actions,
            WorkerAction::Emit(
                BleEvent::Disconnected { peripheral_id: None, unexpected: false },
            ),
        );
        push_action(&mut actions, WorkerAction::OpenAdapter { index });
        assert(actions.deep_view() =~= after_select(before, index).1);
        actions
    }

    fn release(&self, actions: &mut Vec<WorkerAction>)
        ensures
            final(actions).deep_view() == old(actions).deep_view() + release_actions(
                self.deep_view(),
            ),
    {
        let ghost before = actions.deep_view();
        push_action(actions, WorkerAction::AbortNotifications);
        if self.peripheral.is_some() {
            push_action(actions, WorkerAction::DropPeripheral);
        }
        assert(actions.deep_view() =~= before + release_actions(self.deep_view()));
    }

    fn connect(&mut self, peripheral_id: String) -> (r: Vec<WorkerAction>)
        requires
            worker_wf(old(self).deep_view()),
        ensures
            (final(self).deep_view(), r.deep_view()) == after_connect(
                old(self).deep_view(),
                peripheral_id@,
            ),
            worker_wf(final(self).deep_view()),
    {
        let ghost before = self.deep_view();
        self.reconnect_pending = false;
        self.reconnect_attempt = 0;
        if same_id(&self.peripheral, &peripheral_id) {
            self.target_id = Some(peripheral_id.clone());
            return start_connecting(peripheral_id, false, 0);
        }
        let mut actions = no_actions();
        self.release(&mut actions);
        self.connected = false;
        self.peripheral = None;
        push_action(
            &mut actions,
            WorkerAction::FindPeripheral { peripheral_id, reconnect: false },
        );
        assert(actions.deep_view() =~= after_connect(before, peripheral_id@).1);
        actions
    }

    fn disconnect(&mut self) -> (r: Vec<WorkerAction>)
        requires
            worker_wf(old(self).deep_view()),
        ensures
            (final(self).deep_view(), r.deep_view()) == after_disconnect(old(self).deep_view()),
            worker_wf(final(self).deep_view()),
    {
        self.reconnect_pending = false;
        self.reconnect_attempt = 0;
        self.target_id = None;
        if self.peripheral.is_some() {
            two_actions(WorkerAction::AbortNotifications, WorkerAction::Disconnect)
        } else {
            self.connected = false;
            two_actions(
                WorkerAction::AbortNotifications,
                WorkerAction::Emit(
                    BleEvent::Disconnected { peripheral_id: None, unexpected: false },
                ),
            )
        }
    }

    fn set_auto_reconnect(&mut self, enabled: bool) -> (r: Vec<WorkerAction>)
        requires
            worker_wf(old(self).deep_view()),
        ensures
            (final(self).deep_view(), r.deep_view()) == after_auto_reconnect(
                old(self).deep_view(),
                enabled,
            ),
            worker_wf(final(self).deep_view()),
    {
        let mut actions = no_actions();
        self.auto_reconnect = enabled;
        if !enabled {
            self.reconnect_pending = false;
            self.reconnect_attempt = 0;
        } else if !self.connected && self.peripheral.is_some() && self.target_id.is_some() {
            self.schedule_reconnect(&mut actions);
        }
        let key = if enabled {
            "自动重连已开启"
        } else {
            "自动重连已关闭"
        };
        push_action(&mut actions, WorkerAction::Emit(BleEvent::Status(LocalizedText::plain(key))));
        assert(actions.deep_view() =~= after_auto_reconnect(old(self).deep_view(), enabled).1);
        actions
    }

    fn operate(&mut self, command: BleCommand) -> (r: Vec<WorkerAction>)
        ensures
            final(self).deep_view() == old(self).deep_view(),
            r.deep_view() == after_operation(old(self).deep_view(), command.deep_view()),
    {
        if self.connected && self.peripheral.is_some() {
            one_action(WorkerAction::Operate(command))
        } else {
            one_action(
                WorkerAction::Emit(BleEvent::Error("当前没有已连接 BLE 设备".to_owned())),
            )
        }
    }

    fn shutdown(&mut self) -> (r: Vec<WorkerAction>)
        ensures
            final(self).deep_view() == old(self).deep_view(),
            r.deep_view() == after_shutdown(old(self).deep_view()),
    {
        let mut actions = no_actions();
        if self.scanning {
            push_action(&mut actions, WorkerAction::StopScanQuietly);
        }
        self.release(&mut actions);
        push_action(&mut actions, WorkerAction::Stop);
        assert(actions.deep_view() =~= after_shutdown(self.deep_view()));
        actions
    }

    fn on_adapter_opened(&mut self, index: usize, error: Option<String>) -> (r: Vec<WorkerAction>)
        requires
            worker_wf(old(self).deep_view()),
            index < old(self).adapters@.len(),
        ensures
            (final(self).deep_view(), r.deep_view()) == after_adapter(
                old(self).deep_view(),
                index,
                error.deep_view(),
            ),
            worker_wf(final(self).deep_view()),
    {
        match error {
            None => {
                self.selected_adapter = index;
                let adapter = self.adapters[index].clone();
                two_actions(
                    WorkerAction::Emit(BleEvent::DevicesCleared),
                    WorkerAction::Emit(BleEvent::AdapterSelected { adapter }),
                )
            },
            Some(message) => report_error("切换 Adapter 失败: ", message.as_str()),
        }
    }

    fn on_scan_started(&mut self, error: Option<String>) -> (r: Vec<WorkerAction>)
        requires
            worker_wf(old(self).deep_view()),
        ensures
            (final(self).deep_view(), r.deep_view()) == stepped(
                old(self).deep_view(),
                (WorkerInputView::ScanStarted { error: error.deep_view() }),
            ),
            worker_wf(final(self).deep_view()),
    {
        match error {
            None => {
                self.scanning = true;
                two_actions(
                    WorkerAction::Emit(BleEvent::ScanStarted),
                    WorkerAction::ReportKnownDevices,
                )
            },
            Some(message) => report_error("启动 BLE 扫描失败: ", message.as_str()),
        }
    }

    fn on_scan_stopped(&mut self, error: Option<String>) -> (r: Vec<WorkerAction>)
        requires
            worker_wf(old(self).deep_view()),
        ensures
            (final(self).deep_view(), r.deep_view()) == stepped(
                old(self).deep_view(),
                (WorkerInputView::ScanStopped { error: error.deep_view() }),
            ),
            worker_wf(final(self).deep_view()),
    {
        match error {
            None => {
                self.scanning = false;
                one_action(WorkerAction::Emit(BleEvent::ScanStopped))
            },
            Some(message) => report_error("停止 BLE 扫描失败: ", message.as_str()),
        }
    }

    fn on_peripheral_found(
        &mut self,
        peripheral_id: String,
        reconnect: bool,
        error: Option<String>,
    ) -> (r: Vec<WorkerAction>)
        requires
            worker_wf(old(self).deep_view()),
            reconnect ==> awaits_reconnect(old(self).deep_view()),
        ensures
            (final(self).deep_view(), r.deep_view()) == after_found(
                old(self).deep_view(),
                peripheral_id@,
                reconnect,
                error.deep_view(),
            ),
            worker_wf(final(self).deep_view()),
    {
        match error {
            None => {
                self.peripheral = Some(peripheral_id.clone());
                if reconnect {
                    let attempt: u32 = self.attempt_shown();
                    start_connecting(peripheral_id, true, attempt)
                } else {
                    self.target_id = Some(peripheral_id.clone());
                    start_connecting(peripheral_id, false, 0)
                }
            },
            Some(message) => if reconnect {
                let mut actions = one_action(
                    WorkerAction::Emit(
                        BleEvent::ReconnectFailed {
                            attempt: self.reconnect_attempt,
                            error: message,
                        },
                    ),
                );
                self.schedule_reconnect(&mut actions);
                actions
            } else {
                one_action(WorkerAction::Emit(BleEvent::Error(message)))
            },
        }
    }

    fn attempt_shown(&self) -> (r: u32)
        ensures
            r == shown_attempt(self.deep_view()),
    {
        if self.reconnect_attempt >= 1 {
            self.reconnect_attempt
        } else {
            1
        }
    }

    fn on_connected(&mut self, established: Established) -> (r: Vec<WorkerAction>)
        requires
            worker_wf(old(self).deep_view()),
            old(self).peripheral is Some,
            !old(self).reconnect_pending,
        ensures
            (final(self).deep_view(), r.deep_view()) == after_connected(
                old(self).deep_view(),
                established.deep_view(),
            ),
            worker_wf(final(self).deep_view()),
    {
        self.connected = true;
        self.reconnect_attempt = 0;
        let peripheral_id = match &self.peripheral {
            Some(id) => id.clone(),
            None => String::new(),
        };
        let name = match established.name {
            Some(name) => name,
            None => UNKNOWN_NAME.to_owned(),
        };
        let mut actions = two_actions(
            WorkerAction::Emit(
                BleEvent::Connected { peripheral_id, name, mtu: established.mtu },
            ),
            WorkerAction::Emit(BleEvent::GattDiscovered { snapshot: established.snapshot }),
        );
        push_action(&mut actions, WorkerAction::EnsureNotifications);
        actions
    }

    fn on_connect_failed(&mut self, reconnect: bool, attempt: u32, error: String) -> (r: Vec<
        WorkerAction,
    >)
        requires
            worker_wf(old(self).deep_view()),
            old(self).target_id is Some,
            reconnect ==> old(self).auto_reconnect,
        ensures
            (final(self).deep_view(), r.deep_view()) == after_failure(
                old(self).deep_view(),
                reconnect,
                attempt,
                error@,
            ),
            worker_wf(final(self).deep_view()),
    {
        self.connected = false;
        if reconnect {
            let mut actions = one_action(
                WorkerAction::Emit(BleEvent::ReconnectFailed { attempt, error }),
            );
            self.schedule_reconnect(&mut actions);
            actions
        } else {
            let mut actions = report_error("连接失败: ", error.as_str());
            if self.auto_reconnect {
                self.schedule_reconnect(&mut actions);
            }
            actions
        }
    }

    fn on_disconnect_finished(&mut self, error: Option<String>) -> (r: Vec<WorkerAction>)
        requires
            worker_wf(old(self).deep_view()),
        ensures
            (final(self).deep_view(), r.deep_view()) == after_released(
                old(self).deep_view(),
                error.deep_view(),
            ),
            worker_wf(final(self).deep_view()),
    {
        let peripheral_id = self.peripheral.clone();
        assert(peripheral_id.deep_view() == self.peripheral.deep_view());
        let gone = WorkerAction::Emit(BleEvent::Disconnected { peripheral_id, unexpected: false });
        self.peripheral = None;
        self.connected = false;
        match error {
            Some(message) => {
                let mut actions = report_error("断开 BLE 设备失败: ", message.as_str());
                push_action(&mut actions, gone);
                actions
            },
            None => one_action(gone),
        }
    }

    fn on_device_disconnected(&mut self, peripheral_id: String) -> (r: Vec<WorkerAction>)
        requires
            worker_wf(old(self).deep_view()),
        ensures
            (final(self).deep_view(), r.deep_view()) == after_lost(
                old(self).deep_view(),
                peripheral_id@,
            ),
            worker_wf(final(self).deep_view()),
    {
        if !(same_id(&self.peripheral, &peripheral_id) && self.connected) {
            return no_actions();
        }
        self.connected = false;
        let mut actions = one_action(
            WorkerAction::Emit(
                BleEvent::Disconnected { peripheral_id: Some(peripheral_id), unexpected: true },
            ),
        );
        if self.auto_reconnect && self.target_id.is_some() {
            self.schedule_reconnect(&mut actions);
        }
        actions
    }

    fn on_reconnect_due(&mut self) -> (r: Vec<WorkerAction>)
        requires
            worker_wf(old(self).deep_view()),
        ensures
            (final(self).deep_view(), r.deep_view()) == after_due(old(self).deep_view()),
            worker_wf(final(self).deep_view()),
    {
        self.reconnect_pending = false;
        if !self.auto_reconnect || self.connected {
            return no_actions();
        }
        let target = match &self.target_id {
            Some(target) => target.clone(),
            None => {
                return no_actions();
            },
        };
        match &self.peripheral {
            Some(peripheral_id) => {
                let attempt: u32 = self.attempt_shown();
                start_connecting(peripheral_id.clone(), true, attempt)
            },
            None => one_action(
                WorkerAction::FindPeripheral { peripheral_id: target, reconnect: true },
            ),
        }
    }

    fn schedule_reconnect(&mut self, actions: &mut Vec<WorkerAction>)
        ensures
            final(self).deep_view() == with_reconnect(old(self).deep_view()),
            final(actions).deep_view() == old(actions).deep_view() + reconnect_actions(
                old(self).deep_view(),
            ),
    {
        let ghost before = actions.deep_view();
        let attempt: u32 = self.reconnect_attempt.saturating_add(1);
        let delay_ms: u64 = delay_before(attempt);
        self.reconnect_attempt = attempt;
        self.reconnect_pending = true;
        push_action(actions, WorkerAction::ArmReconnect { delay_ms });
        push_action(actions, WorkerAction::Emit(BleEvent::ReconnectScheduled { attempt, delay_ms }));
        assert(actions.deep_view() =~= before + reconnect_actions(old(self).deep_view()));
    }
}

/// The pause before the reconnect with the given number.
pub fn delay_before(attempt: u32) -> (r: u64)
    ensures
        r == reconnect_delay(attempt),
{
    let exponent: u32 = if attempt <= 1 {
        0
    } else if attempt - 1 < 4 {
        attempt - 1
    } else {
        4
    };
    let doubled: u64 = 1_000u64 << exponent;
    assert(1_000u64 << 0u32 == 1_000 && 1_000u64 << 1u32 == 2_000 && 1_000u64 << 2u32 == 4_000
        && 1_000u64 << 3u32 == 8_000 && 1_000u64 << 4u32 == 16_000) by (bit_vector);
    if doubled < MAX_RECONNECT_DELAY_MS {
        doubled
    } else {
        MAX_RECONNECT_DELAY_MS
    }
}

fn start_connecting(peripheral_id: String, reconnect: bool, attempt: u32) -> (r: Vec<WorkerAction>)
    ensures
        r.deep_view() == connect_actions(peripheral_id@, reconnect, attempt),
{
    two_actions(
        WorkerAction::Emit(BleEvent::Connecting { peripheral_id, reconnect, attempt }),
        WorkerAction::Establish { reconnect, attempt },
    )
}

fn operation_event(outcome: OperationOutcome) -> (r: BleEvent)
    ensures
        r.deep_view() == outcome_event(outcome.deep_view()),
{
    match outcome {
        OperationOutcome::Failed(message) => BleEvent::Error(message),
        OperationOutcome::SubscribedAll { count } => BleEvent::Status(
            LocalizedText::with_one(
                "已订阅 {count} 个 Notify/Indicate Characteristic",
                text::decimal_text(count),
            ),
        ),
        OperationOutcome::Subscribed { characteristic } => BleEvent::Subscribed { characteristic },
        OperationOutcome::Read { characteristic, data, timestamp } => BleEvent::ReadResult {
            characteristic,
            data,
            timestamp,
        },
        OperationOutcome::Written { characteristic, data, timestamp } => BleEvent::WriteComplete {
            characteristic,
            data,
            timestamp,
        },
        OperationOutcome::DescriptorRead { descriptor, data, timestamp } => {
            BleEvent::DescriptorReadResult { descriptor, data, timestamp }
        },
        OperationOutcome::DescriptorWritten { descriptor, data, timestamp } => {
            BleEvent::DescriptorWriteComplete { descriptor, data, timestamp }
        },
    }
}

/// The pause before a reconnect never shrinks from one attempt to the next, and lies between one
/// second and the longest pause.
pub proof fn reconnect_delay_grows(first: u32, second: u32)
    requires
        first <= second,
    ensures
        1_000 <= reconnect_delay(first) <= reconnect_delay(second) <= MAX_RECONNECT_DELAY_MS,
{
}

/// Each pause is twice the one before it, up to the longest pause.
pub proof fn reconnect_delay_doubles(attempt: u32)
    requires
        1 <= attempt < u32::MAX,
    ensures
        reconnect_delay((attempt + 1) as u32) == (if 2 * reconnect_delay(attempt)
            <= MAX_RECONNECT_DELAY_MS {
            2 * reconnect_delay(attempt)
        } else {
            MAX_RECONNECT_DELAY_MS as int
        }),
{
}

/// After the user asked to disconnect, no device is wanted and no reconnect is due: neither the
/// end of the disconnect nor a device that goes away afterwards schedules one.
pub proof fn disconnect_ends_reconnects(
    s: WorkerStateView,
    error: Option<Seq<char>>,
    lost: Seq<char>,
)
    requires
        worker_wf(s),
    ensures
        ({
            let asked = stepped(s, WorkerInputView::Command(BleCommandView::Disconnect)).0;
            let done = stepped(asked, WorkerInputView::DisconnectFinished { error }).0;
            let after = stepped(
                asked,
                WorkerInputView::DeviceDisconnected { peripheral_id: lost },
            ).0;
            &&& asked.target_id is None && !asked.reconnect_pending
            &&& done.target_id is None && !done.reconnect_pending && !done.connected
            &&& after.target_id is None && !after.reconnect_pending
        }),
{
}

/// A device that goes away while it is wanted and reconnects are on is reported, and a reconnect
/// is scheduled.
pub proof fn lost_device_is_reconnected(s: WorkerStateView, id: Seq<char>)
    requires
        worker_wf(s),
        s.connected,
        s.peripheral == Some(id),
        s.auto_reconnect,
        s.target_id is Some,
    ensures
        ({
            let after = stepped(s, WorkerInputView::DeviceDisconnected { peripheral_id: id });
            &&& !after.0.connected && after.0.reconnect_pending
            &&& after.0.target_id == s.target_id
            &&& after.1.len() == 3
            &&& after.1[0] == WorkerActionView::Emit(
                BleEventView::Disconnected { peripheral_id: Some(id), unexpected: true },
            )
            &&& after.1[1] == (WorkerActionView::ArmReconnect {
                delay_ms: reconnect_delay(next_attempt(s.reconnect_attempt)),
            })
        }),
{
}

/// Without automatic reconnects nothing is ever scheduled.
pub proof fn no_reconnect_when_off(s: WorkerStateView, input: WorkerInputView)
    requires
        worker_wf(s),
        expected(s, input),
        !stepped(s, input).0.auto_reconnect,
    ensures
        !stepped(s, input).0.reconnect_pending,
{
}

/// A connection ends the series of reconnects: the next one starts with the shortest pause.
pub proof fn connection_resets_attempts(s: WorkerStateView, established: EstablishedView)
    ensures
        stepped(s, WorkerInputView::Connected { established }).0.reconnect_attempt == 0,
        reconnect_delay(next_attempt(0)) == 1_000,
{
}

/// Another adapter starts without a device: nothing is held, wanted, scanned or due.
pub proof fn adapter_switch_forgets_the_device(s: WorkerStateView, index: usize)
    requires
        index < s.adapters.len(),
        index != s.selected_adapter,
    ensures
        ({
            let after = stepped(
                s,
                WorkerInputView::Command(BleCommandView::SelectAdapter { index }),
            ).0;
            &&& after.peripheral is None && after.target_id is None && !after.connected
            &&& !after.scanning && !after.reconnect_pending && after.reconnect_attempt == 0
        }),
{
}

/// Commands on a device are carried out only while one is connected.
pub proof fn operations_need_a_connection(s: WorkerStateView, key: CharacteristicKeyView)
    requires
        worker_wf(s),
    ensures
        ({
            let actions = stepped(
                s,
                WorkerInputView::Command(BleCommandView::Read { characteristic: key }),
            ).1;
            &&& s.connected ==> actions == seq![
                WorkerActionView::Operate(BleCommandView::Read { characteristic: key }),
            ]
            &&& !s.connected ==> actions == seq![error_action("当前没有已连接 BLE 设备"@)]
        }),
{
}

impl Ranked for ManufacturerDataEntry {
    open spec fn in_rank(a: ManufacturerDataEntryView, b: ManufacturerDataEntryView) -> bool {
        a.company_id <= b.company_id
    }

    fn not_after(&self, other: &Self) -> (r: bool) {
        self.company_id <= other.company_id
    }
}

impl Ranked for ServiceDataEntry {
    open spec fn in_rank(a: ServiceDataEntryView, b: ServiceDataEntryView) -> bool {
        text::text_le(a.service_uuid, b.service_uuid)
    }

    fn not_after(&self, other: &Self) -> (r: bool) {
        text::text_not_after(self.service_uuid.as_str(), other.service_uuid.as_str())
    }
}

impl Ranked for String {
    open spec fn in_rank(a: Seq<char>, b: Seq<char>) -> bool {
        text::text_le(a, b)
    }

    fn not_after(&self, other: &Self) -> (r: bool) {
        text::text_not_after(self.as_str(), other.as_str())
    }
}

/// The entry of an adapter in the list of adapters.
pub fn adapter_entry(
    index: usize,
    name: Option<String>,
    address: Option<String>,
    state: Option<CentralState>,
) -> (r: AdapterInfo)
    ensures
        r.deep_view() == (AdapterInfoView {
            index,
            name: match name {
                Some(name) => name@,
                None => "Bluetooth Adapter "@ + text::decimal(index as nat),
            },
            address: address.deep_view(),
            state: match state {
                Some(state) => state_label(state),
                None => "Unknown"@,
            },
        }),
{
    let name = match name {
        Some(name) => name,
        None => {
            let number = text::decimal_text(index as u64);
            text::joined("Bluetooth Adapter ", number.as_str())
        },
    };
    let state = match state {
        Some(state) => central_state_label(state).to_owned(),
        None => "Unknown".to_owned(),
    };
    AdapterInfo { index, name, address, state }
}

/// The properties that an adapter gives for a device, the lists in any order.
#[derive(Debug)]
pub struct DeviceProperties {
    pub local_name: Option<String>,
    pub advertisement_name: Option<String>,
    pub address: String,
    pub address_type: Option<String>,
    pub rssi: Option<i16>,
    pub tx_power: Option<i16>,
    pub appearance: Option<u16>,
    pub manufacturer_data: Vec<ManufacturerDataEntry>,
    pub service_data: Vec<ServiceDataEntry>,
    pub services: Vec<String>,
}

/// The name that a device gives: its own name before the advertised one.
pub open spec fn given_name(local: Option<Seq<char>>, advertised: Option<Seq<char>>) -> Option<
    Seq<char>,
> {
    match local {
        Some(name) => Some(name),
        None => advertised,
    }
}

/// The name that a device gives: its own name before the advertised one.
pub fn choose_name(local: Option<String>, advertised: Option<String>) -> (r: Option<String>)
    ensures
        r.deep_view() == given_name(local.deep_view(), advertised.deep_view()),
{
    match local {
        Some(name) => Some(name),
        None => advertised,
    }
}

/// The device that an adapter's properties describe.
pub open spec fn described_device(
    id: Seq<char>,
    address: Seq<char>,
    properties: Option<DeviceProperties>,
) -> DeviceInfoView {
    match properties {
        Some(p) => DeviceInfoView {
            id,
            name: match given_name(p.local_name.deep_view(), p.advertisement_name.deep_view()) {
                Some(name) => name,
                None => UNKNOWN_NAME@,
            },
            address: p.address@,
            address_type: p.address_type.deep_view(),
            rssi: p.rssi,
            tx_power: p.tx_power,
            appearance: p.appearance,
            manufacturer_data: sorting::sorted_by(
                p.manufacturer_data.deep_view(),
                |a: ManufacturerDataEntryView, b: ManufacturerDataEntryView|
                    ManufacturerDataEntry::in_rank(a, b),
            ),
            service_data: sorting::sorted_by(
                p.service_data.deep_view(),
                |a: ServiceDataEntryView, b: ServiceDataEntryView|
                    ServiceDataEntry::in_rank(a, b),
            ),
            advertised_services: sorting::sorted_by(
                p.services.deep_view(),
                |a: Seq<char>, b: Seq<char>| String::in_rank(a, b),
            ),
        },
        None => DeviceInfoView {
            id,
            name: UNKNOWN_NAME@,
            address,
            address_type: None,
            rssi: None,
            tx_power: None,
            appearance: None,
            manufacturer_data: Seq::empty(),
            service_data: Seq::empty(),
            advertised_services: Seq::empty(),
        },
    }
}

/// The device that an adapter's properties describe: its lists sorted, its name filled in.
pub fn device_info(id: String, address: String, properties: Option<DeviceProperties>) -> (r:
    DeviceInfo)
    ensures
        r.deep_view() == described_device(id@, address@, properties),
{
    match properties {
        Some(properties) => {
            let name = match choose_name(properties.local_name, properties.advertisement_name) {
                Some(name) => name,
                None => UNKNOWN_NAME.to_owned(),
            };
            let mut manufacturer_data = properties.manufacturer_data;
            sorting::stable_sort(&mut manufacturer_data);
            let mut service_data = properties.service_data;
            sorting::stable_sort(&mut service_data);
            let mut advertised_services = properties.services;
            sorting::stable_sort(&mut advertised_services);
            DeviceInfo {
                id,
                name,
                address: properties.address,
                address_type: properties.address_type,
                rssi: properties.rssi,
                tx_power: properties.tx_power,
                appearance: properties.appearance,
                manufacturer_data,
                service_data,
                advertised_services,
            }
        },
        None => {
            let r = DeviceInfo {
                id,
                name: UNKNOWN_NAME.to_owned(),
                address,
                address_type: None,
                rssi: None,
                tx_power: None,
                appearance: None,
                manufacturer_data: Vec::new(),
                service_data: Vec::new(),
                advertised_services: Vec::new(),
            };
            assert(r.deep_view().manufacturer_data =~= Seq::empty());
            assert(r.deep_view().service_data =~= Seq::empty());
            assert(r.deep_view().advertised_services =~= Seq::empty());
            r
        },
    }
}

/// The first position of a key in a list, or the length of the list.
pub open spec fn key_position(keys: Seq<CharacteristicKeyView>, key: CharacteristicKeyView) -> int
    decreases keys.len(),
{
    if keys.len() == 0 || keys[0] == key {
        0
    } else {
        1 + key_position(keys.skip(1), key)
    }
}

fn position_of_key(keys: &[CharacteristicKey], service: &str, characteristic: &str) -> (r: usize)
    ensures
        r == key_position(
            keys.deep_view(),
            (CharacteristicKeyView {
                service_uuid: service@,
                characteristic_uuid: characteristic@,
            }),
        ),
        r <= keys@.len(),
{
    let ghost all = keys.deep_view();
    let ghost key = CharacteristicKeyView {
        service_uuid: service@,
        characteristic_uuid: characteristic@,
    };
    let mut i: usize = 0;
    assert(all.skip(0) =~= all);
    while i < keys.len()
        invariant
            i <= keys@.len(),
            all == keys.deep_view(),
            key == (CharacteristicKeyView {
                service_uuid: service@,
                characteristic_uuid: characteristic@,
            }),
            key_position(all, key) == i + key_position(all.skip(i as int), key),
        decreases keys@.len() - i,
    {
        assert(all.skip(i as int)[0] == keys@[i as int].deep_view());
        if text::same_text(keys[i].service_uuid.as_str(), service) && text::same_text(
            keys[i].characteristic_uuid.as_str(),
            characteristic,
        ) {
            return i;
        }
        assert(all.skip(i as int).skip(1) =~= all.skip(i + 1));
        i = i + 1;
    }
    i
}

/// Two UUIDs with a slash between them.
pub open spec fn uuid_pair(first: Seq<char>, second: Seq<char>) -> Seq<char> {
    first + " / "@ + second
}

fn pair_message(start: &str, first: &str, second: &str) -> (r: String)
    ensures
        r@ == start@ + uuid_pair(first@, second@),
{
    let mut out = text::joined(start, first);
    out.append(" / ");
    out.append(second);
    assert(out@ =~= start@ + uuid_pair(first@, second@));
    out
}

/// Finds a characteristic of the connected device among the keys of all of them.
pub fn find_characteristic(keys: &[CharacteristicKey], key: &CharacteristicKey) -> (r: Result<
    usize,
    String,
>)
    ensures
        match r {
            Ok(index) => index < keys@.len() && index == key_position(
                keys.deep_view(),
                key.deep_view(),
            ),
            Err(message) => key_position(keys.deep_view(), key.deep_view()) == keys@.len()
                && message@ == "找不到 Characteristic "@ + uuid_pair(
                key.service_uuid@,
                key.characteristic_uuid@,
            ),
        },
{
    let index: usize = position_of_key(
        keys,
        key.service_uuid.as_str(),
        key.characteristic_uuid.as_str(),
    );
    if index < keys.len() {
        Ok(index)
    } else {
        Err(
            pair_message(
                "找不到 Characteristic ",
                key.service_uuid.as_str(),
                key.characteristic_uuid.as_str(),
            ),
        )
    }
}

/// The characteristic to which a descriptor belongs.
pub open spec fn owner_of(key: DescriptorKeyView) -> CharacteristicKeyView {
    CharacteristicKeyView {
        service_uuid: key.service_uuid,
        characteristic_uuid: key.characteristic_uuid,
    }
}

/// Finds the characteristic to which a descriptor of the connected device belongs.
pub fn find_descriptor_owner(keys: &[CharacteristicKey], key: &DescriptorKey) -> (r: Result<
    usize,
    String,
>)
    ensures
        match r {
            Ok(index) => index < keys@.len() && index == key_position(
                keys.deep_view(),
                owner_of(key.deep_view()),
            ),
            Err(message) => key_position(keys.deep_view(), owner_of(key.deep_view()))
                == keys@.len() && message@ == "找不到 Descriptor 所属 Characteristic "@
                + uuid_pair(key.service_uuid@, key.characteristic_uuid@),
        },
{
    let index: usize = position_of_key(
        keys,
        key.service_uuid.as_str(),
        key.characteristic_uuid.as_str(),
    );
    if index < keys.len() {
        Ok(index)
    } else {
        Err(
            pair_message(
                "找不到 Descriptor 所属 Characteristic ",
                key.service_uuid.as_str(),
                key.characteristic_uuid.as_str(),
            ),
        )
    }
}

/// The first position of a text in a list, or the length of the list.
pub open spec fn text_position(items: Seq<Seq<char>>, wanted: Seq<char>) -> int
    decreases items.len(),
{
    if items.len() == 0 || items[0] == wanted {
        0
    } else {
        1 + text_position(items.skip(1), wanted)
    }
}

/// Finds a descriptor among the UUIDs of the descriptors of its characteristic.
pub fn find_descriptor(uuids: &[String], key: &DescriptorKey) -> (r: Result<usize, String>)
    ensures
        match r {
            Ok(index) => index < uuids@.len() && index == text_position(
                uuids.deep_view(),
                key.descriptor_uuid@,
            ),
            Err(message) => text_position(uuids.deep_view(), key.descriptor_uuid@) == uuids@.len()
                && message@ == "找不到 Descriptor "@ + key.descriptor_uuid@,
        },
{
    let ghost all = uuids.deep_view();
    let ghost wanted = key.descriptor_uuid@;
    let mut i: usize = 0;
    assert(all.skip(0) =~= all);
    while i < uuids.len()
        invariant
            i <= uuids@.len(),
            all == uuids.deep_view(),
            wanted == key.descriptor_uuid@,
            text_position(all, wanted) == i + text_position(all.skip(i as int), wanted),
        decreases uuids@.len() - i,
    {
        assert(all.skip(i as int)[0] == uuids@[i as int]@);
        if uuids[i] == key.descriptor_uuid {
            return Ok(i);
        }
        assert(all.skip(i as int).skip(1) =~= all.skip(i + 1));
        i = i + 1;
    }
    Err(text::joined("找不到 Descriptor ", key.descriptor_uuid.as_str()))
}

/// Whether a characteristic can send its value by itself.
pub fn can_subscribe(properties: crate::ble::model::CharacteristicProperties) -> (r: bool)
    ensures
        r == (properties.notify || properties.indicate),
{
    properties.notify || properties.indicate
}

/// Each input changes only what it is about. The adapters never change, the selected one only when
/// another was opened, the wish to reconnect only by its command, and scanning only by the outcome
/// of a scan command or with the adapter. The device that is wanted is set by connecting to it and
/// forgotten by disconnecting or with the adapter, and a connection begins only with its success.
pub proof fn inputs_change_what_they_are_about(s: WorkerStateView, input: WorkerInputView)
    requires
        worker_wf(s),
        expected(s, input),
    ensures
        ({
            let after = stepped(s, input).0;
            &&& after.adapters == s.adapters
            &&& after.selected_adapter == match input {
                WorkerInputView::AdapterOpened { index, error: None } => index,
                _ => s.selected_adapter,
            }
            &&& after.auto_reconnect == match input {
                WorkerInputView::Command(BleCommandView::SetAutoReconnect { enabled }) => enabled,
                _ => s.auto_reconnect,
            }
            &&& after.scanning == match input {
                WorkerInputView::ScanStarted { error: None } => true,
                WorkerInputView::ScanStopped { error: None } => false,
                WorkerInputView::Command(BleCommandView::SelectAdapter { index }) => s.scanning && (
                index >= s.adapters.len() || index == s.selected_adapter),
                _ => s.scanning,
            }
            &&& after.connected && !s.connected ==> input is Connected
            &&& input is Connected ==> after.connected && after.peripheral == s.peripheral
            &&& after.target_id == match input {
                WorkerInputView::Command(BleCommandView::Disconnect) => None,
                WorkerInputView::Command(BleCommandView::SelectAdapter { index }) => if index
                    < s.adapters.len() && index != s.selected_adapter {
                    None
                } else {
                    s.target_id
                },
                WorkerInputView::Command(BleCommandView::Connect { peripheral_id }) => if s.peripheral
                    == Some(peripheral_id) {
                    Some(peripheral_id)
                } else {
                    s.target_id
                },
                WorkerInputView::PeripheralFound { peripheral_id, reconnect: false, error: None } => {
                    Some(peripheral_id)
                },
                _ => s.target_id,
            }
            &&& worker_wf(after)
        }),
{
}

/// The pause before each reconnect, in milliseconds: one second, two, four, eight, and then ten.
pub proof fn reconnects_wait_longer_and_longer(attempt: u32)
    ensures
        reconnect_delay(1) == 1_000,
        reconnect_delay(2) == 2_000,
        reconnect_delay(3) == 4_000,
        reconnect_delay(4) == 8_000,
        attempt >= 5 ==> reconnect_delay(attempt) == 10_000,
{
}

/// A reconnect is planned only while reconnects are on, a device is wanted and none is connected,
/// and is then the next one in number, announced with the pause that is waited for. Nothing else
/// starts to wait for a reconnect.
pub proof fn planned_reconnects_are_announced(s: WorkerStateView, input: WorkerInputView, i: int)
    requires
        worker_wf(s),
        expected(s, input),
        0 <= i < stepped(s, input).1.len(),
    ensures
        ({
            let after = stepped(s, input).0;
            let actions = stepped(s, input).1;
            &&& actions[i] matches WorkerActionView::ArmReconnect { delay_ms } ==> {
                &&& after.reconnect_pending && after.auto_reconnect && !after.connected
                &&& after.target_id is Some
                &&& after.reconnect_attempt == if s.reconnect_attempt < u32::MAX {
                    s.reconnect_attempt + 1
                } else {
                    u32::MAX as int
                }
                &&& delay_ms == reconnect_delay(after.reconnect_attempt)
                &&& i + 1 < actions.len() && actions[i + 1] == WorkerActionView::Emit(
                    BleEventView::ReconnectScheduled {
                        attempt: after.reconnect_attempt,
                        delay_ms,
                    },
                )
            }
            &&& actions[i] matches WorkerActionView::Emit(
                BleEventView::ReconnectScheduled { attempt, delay_ms },
            ) ==> i > 0 && actions[i - 1] == (WorkerActionView::ArmReconnect { delay_ms })
        }),
{
}

/// Whether an action is among others.
pub open spec fn is_done(actions: Seq<WorkerActionView>, action: WorkerActionView) -> bool {
    exists|i: int| 0 <= i < actions.len() && #[trigger] actions[i] == action
}

/// Connecting to a device that is not held looks for it first; the device held before is let go.
/// Once it is found it is the wanted one, a first attempt is announced and made, and its success
/// makes it the connected device, announced with its name and its services.
pub proof fn connecting_takes_its_course(
    s: WorkerStateView,
    id: Seq<char>,
    established: EstablishedView,
)
    requires
        worker_wf(s),
        s.peripheral != Some(id),
    ensures
        ({
            let asked = stepped(
                s,
                WorkerInputView::Command(BleCommandView::Connect { peripheral_id: id }),
            );
            let found = stepped(
                asked.0,
                WorkerInputView::PeripheralFound {
                    peripheral_id: id,
                    reconnect: false,
                    error: None,
                },
            );
            let done = stepped(found.0, WorkerInputView::Connected { established });
            &&& asked.1.last() == (WorkerActionView::FindPeripheral {
                peripheral_id: id,
                reconnect: false,
            })
            &&& asked.1[0] == WorkerActionView::AbortNotifications
            &&& asked.1.len() == if s.peripheral is Some {
                3int
            } else {
                2int
            }
            &&& s.peripheral is Some ==> asked.1[1] == WorkerActionView::DropPeripheral
            &&& asked.0.peripheral is None && !asked.0.connected && !asked.0.reconnect_pending
            &&& found.0.peripheral == Some(id) && found.0.target_id == Some(id)
                && !found.0.connected
            &&& found.1 =~= seq![
                WorkerActionView::Emit(
                    BleEventView::Connecting { peripheral_id: id, reconnect: false, attempt: 0 },
                ),
                WorkerActionView::Establish { reconnect: false, attempt: 0 },
            ]
            &&& done.0.connected && done.0.peripheral == Some(id) && done.0.target_id == Some(id)
            &&& done.0.reconnect_attempt == 0 && !done.0.reconnect_pending
            &&& done.1 =~= seq![
                WorkerActionView::Emit(
                    BleEventView::Connected {
                        peripheral_id: id,
                        name: match established.name {
                            Some(name) => name,
                            None => "(unknown)"@,
                        },
                        mtu: established.mtu,
                    },
                ),
                WorkerActionView::Emit(
                    BleEventView::GattDiscovered { snapshot: established.snapshot },
                ),
                WorkerActionView::EnsureNotifications,
            ]
        }),
{
}

/// A device that is held already is connected at once, without looking for it. One that is not
/// found is reported, and nothing is connected or planned.
pub proof fn held_devices_are_connected_at_once(
    s: WorkerStateView,
    id: Seq<char>,
    message: Seq<char>,
)
    requires
        worker_wf(s),
    ensures
        ({
            let again = stepped(
                s,
                WorkerInputView::Command(BleCommandView::Connect { peripheral_id: id }),
            );
            let missed = stepped(
                s,
                WorkerInputView::PeripheralFound {
                    peripheral_id: id,
                    reconnect: false,
                    error: Some(message),
                },
            );
            &&& s.peripheral == Some(id) ==> again.0.target_id == Some(id) && again.0.peripheral
                == Some(id) && again.0.reconnect_attempt == 0 && !again.0.reconnect_pending
                && again.1 =~= seq![
                WorkerActionView::Emit(
                    BleEventView::Connecting { peripheral_id: id, reconnect: false, attempt: 0 },
                ),
                WorkerActionView::Establish { reconnect: false, attempt: 0 },
            ]
            &&& missed.0 == s && missed.1 =~= seq![
                WorkerActionView::Emit(BleEventView::Error(message)),
            ]
        }),
{
}

/// A failed attempt is reported: the first one as an error, a reconnect under its number. Another
/// one is planned after it while reconnects are on, and otherwise the device stays unconnected.
pub proof fn failed_attempts_are_repeated(
    s: WorkerStateView,
    reconnect: bool,
    attempt: u32,
    error: Seq<char>,
)
    requires
        worker_wf(s),
        expected(s, WorkerInputView::ConnectFailed { reconnect, attempt, error }),
    ensures
        ({
            let after = stepped(s, WorkerInputView::ConnectFailed { reconnect, attempt, error });
            &&& !after.0.connected
            &&& after.0.peripheral == s.peripheral
            &&& after.1.len() == if s.auto_reconnect {
                3int
            } else {
                1int
            }
            &&& s.auto_reconnect ==> after.0.reconnect_pending && after.1[1]
                is ArmReconnect
            &&& !s.auto_reconnect ==> !after.0.reconnect_pending
            &&& after.1[0] == WorkerActionView::Emit(
                if reconnect {
                    BleEventView::ReconnectFailed { attempt, error }
                } else {
                    BleEventView::Error("连接失败: "@ + error)
                },
            )
        }),
{
}

/// A reconnect that is due is made while it is still wanted: with the device that is held, or after
/// looking for the wanted one. It is announced under its number, which is at least one.
pub proof fn due_reconnects_are_made(s: WorkerStateView, message: Seq<char>)
    requires
        worker_wf(s),
    ensures
        ({
            let after = stepped(s, WorkerInputView::ReconnectDue);
            let wanted = s.auto_reconnect && !s.connected && s.target_id is Some;
            let number: u32 = if s.reconnect_attempt == 0 {
                1
            } else {
                s.reconnect_attempt
            };
            &&& !after.0.reconnect_pending
            &&& after.0.reconnect_attempt == s.reconnect_attempt
            &&& !wanted ==> after.1.len() == 0
            &&& wanted && s.peripheral is Some ==> after.1 =~= seq![
                WorkerActionView::Emit(
                    BleEventView::Connecting {
                        peripheral_id: s.peripheral->0,
                        reconnect: true,
                        attempt: number,
                    },
                ),
                WorkerActionView::Establish { reconnect: true, attempt: number },
            ]
            &&& wanted && s.peripheral is None ==> after.1 =~= seq![
                WorkerActionView::FindPeripheral { peripheral_id: s.target_id->0, reconnect: true },
            ]
            &&& wanted ==> ({
                let found = stepped(
                    after.0,
                    WorkerInputView::PeripheralFound {
                        peripheral_id: s.target_id->0,
                        reconnect: true,
                        error: None,
                    },
                );
                let missed = stepped(
                    after.0,
                    WorkerInputView::PeripheralFound {
                        peripheral_id: s.target_id->0,
                        reconnect: true,
                        error: Some(message),
                    },
                );
                &&& found.0.peripheral == s.target_id
                &&& found.1 =~= seq![
                    WorkerActionView::Emit(
                        BleEventView::Connecting {
                            peripheral_id: s.target_id->0,
                            reconnect: true,
                            attempt: number,
                        },
                    ),
                    WorkerActionView::Establish { reconnect: true, attempt: number },
                ]
                &&& missed.0.reconnect_pending && missed.1.len() == 3
                &&& missed.1[0] == WorkerActionView::Emit(
                    BleEventView::ReconnectFailed { attempt: s.reconnect_attempt, error: message },
                )
                &&& missed.1[1] is ArmReconnect
            })
        }),
{
}

/// Only the connected device can be lost: any other that goes away changes nothing and is not
/// reported.
pub proof fn only_the_connected_device_is_lost(s: WorkerStateView, id: Seq<char>)
    requires
        worker_wf(s),
    ensures
        ({
            let after = stepped(s, WorkerInputView::DeviceDisconnected { peripheral_id: id });
            let modified = stepped(s, WorkerInputView::ServicesModified { peripheral_id: id });
            &&& !s.connected || s.peripheral != Some(id) ==> after.0 == s && after.1.len() == 0
            &&& s.connected && s.peripheral == Some(id) ==> !after.0.connected && after.0.peripheral
                == s.peripheral && after.1.len() == if s.auto_reconnect && s.target_id is Some {
                3int
            } else {
                1int
            } && after.1[0] == WorkerActionView::Emit(
                BleEventView::Disconnected { peripheral_id: Some(id), unexpected: true },
            )
            &&& s.connected && s.peripheral == Some(id) && !(s.auto_reconnect && s.target_id is Some)
                ==> !after.0.reconnect_pending
            &&& modified.0 == s
            &&& modified.1 =~= if s.connected && s.peripheral == Some(id) {
                seq![WorkerActionView::DiscoverServices]
            } else {
                seq![]
            }
        }),
{
}

/// Disconnecting ends the notifications and lets the held device go, and reports which device it
/// was; without a held device it reports at once.
pub proof fn disconnecting_lets_the_device_go(s: WorkerStateView, error: Option<Seq<char>>)
    requires
        worker_wf(s),
    ensures
        ({
            let asked = stepped(s, WorkerInputView::Command(BleCommandView::Disconnect));
            let done = stepped(asked.0, WorkerInputView::DisconnectFinished { error });
            let gone = WorkerActionView::Emit(
                BleEventView::Disconnected { peripheral_id: s.peripheral, unexpected: false },
            );
            &&& asked.1.len() == 2 && asked.1[0] == WorkerActionView::AbortNotifications
            &&& asked.1[1] == if s.peripheral is Some {
                WorkerActionView::Disconnect
            } else {
                gone
            }
            &&& done.0.peripheral is None && !done.0.connected && done.0.target_id is None
            &&& done.0.reconnect_attempt == 0
            &&& done.1.last() == gone
            &&& error is None ==> done.1.len() == 1
            &&& error matches Some(message) ==> done.1.len() == 2 && done.1[0]
                == WorkerActionView::Emit(BleEventView::Error("断开 BLE 设备失败: "@ + message))
        }),
{
}

/// Another adapter is opened only where there is one and it is not in use: everything of the old one
/// ends first, in order, and it is in use only once it is open. Then the devices are forgotten and
/// the new adapter is announced.
pub proof fn adapters_are_switched_in_order(
    s: WorkerStateView,
    index: usize,
    error: Option<Seq<char>>,
)
    requires
        worker_wf(s),
    ensures
        ({
            let asked = stepped(
                s,
                WorkerInputView::Command(BleCommandView::SelectAdapter { index }),
            );
            let opened = stepped(asked.0, WorkerInputView::AdapterOpened { index, error });
            let scan: int = if s.scanning {
                2
            } else {
                0
            };
            let held: int = if s.peripheral is Some {
                1
            } else {
                0
            };
            if index >= s.adapters.len() {
                asked.0 == s && asked.1 =~= seq![
                    WorkerActionView::Emit(
                        BleEventView::Error(
                            "Adapter index "@ + text::decimal(index as nat) + " 不存在"@,
                        ),
                    ),
                ]
            } else if index == s.selected_adapter {
                asked.0 == s && asked.1.len() == 0
            } else {
                &&& asked.0.selected_adapter == s.selected_adapter
                &&& asked.1.len() == scan + held + 3
                &&& s.scanning ==> asked.1[0] == WorkerActionView::StopScanQuietly && asked.1[1]
                    == WorkerActionView::Emit(BleEventView::ScanStopped)
                &&& asked.1[scan] == WorkerActionView::AbortNotifications
                &&& s.peripheral is Some ==> asked.1[scan + 1] == WorkerActionView::DropPeripheral
                &&& asked.1[scan + held + 1] == WorkerActionView::Emit(
                    BleEventView::Disconnected { peripheral_id: None, unexpected: false },
                )
                &&& asked.1[scan + held + 2] == (WorkerActionView::OpenAdapter { index })
                &&& error is None ==> opened.0.selected_adapter == index && opened.1 =~= seq![
                    WorkerActionView::Emit(BleEventView::DevicesCleared),
                    WorkerActionView::Emit(
                        BleEventView::AdapterSelected { adapter: s.adapters[index as int] },
                    ),
                ]
                &&& error matches Some(message) ==> opened.0 == asked.0 && opened.1 =~= seq![
                    WorkerActionView::Emit(BleEventView::Error("切换 Adapter 失败: "@ + message)),
                ]
            }
        }),
{
}

/// A scan is started only while none runs and only with filters that can be read, and stopped only
/// while one runs. It counts as running once it has started, and until it has stopped.
pub proof fn scans_run_from_start_to_stop(
    s: WorkerStateView,
    filters: Seq<Seq<char>>,
    message: Seq<char>,
)
    requires
        worker_wf(s),
    ensures
        ({
            let start = stepped(
                s,
                WorkerInputView::Command(BleCommandView::StartScan { service_uuids: filters }),
            );
            let stop = stepped(s, WorkerInputView::Command(BleCommandView::StopScan));
            let started = stepped(s, WorkerInputView::ScanStarted { error: None });
            let stopped = stepped(s, WorkerInputView::ScanStopped { error: None });
            let not_started = stepped(s, WorkerInputView::ScanStarted { error: Some(message) });
            let not_stopped = stepped(s, WorkerInputView::ScanStopped { error: Some(message) });
            &&& start.0 == s && stop.0 == s && not_started.0 == s && not_stopped.0 == s
            &&& s.scanning ==> start.1.len() == 0 && stop.1 =~= seq![WorkerActionView::StopScan]
            &&& !s.scanning ==> stop.1.len() == 0 && start.1 =~= match scan::scan_services(
                filters,
            ) {
                Ok(services) => seq![WorkerActionView::StartScan { services }],
                Err(reason) => seq![
                    WorkerActionView::Emit(
                        BleEventView::Error("扫描 Service UUID 无效: "@ + reason),
                    ),
                ],
            }
            &&& started.0.scanning && started.1 =~= seq![
                WorkerActionView::Emit(BleEventView::ScanStarted),
                WorkerActionView::ReportKnownDevices,
            ]
            &&& !stopped.0.scanning && stopped.1 =~= seq![
                WorkerActionView::Emit(BleEventView::ScanStopped),
            ]
            &&& not_started.1 =~= seq![
                WorkerActionView::Emit(BleEventView::Error("启动 BLE 扫描失败: "@ + message)),
            ]
            &&& not_stopped.1 =~= seq![
                WorkerActionView::Emit(BleEventView::Error("停止 BLE 扫描失败: "@ + message)),
            ]
        }),
{
}

/// Switching reconnects off ends a series of them; switching them on plans one for a held and wanted
/// device that is not connected. Either is confirmed.
pub proof fn reconnects_are_switched(s: WorkerStateView)
    requires
        worker_wf(s),
    ensures
        ({
            let on = stepped(
                s,
                WorkerInputView::Command(BleCommandView::SetAutoReconnect { enabled: true }),
            );
            let off = stepped(
                s,
                WorkerInputView::Command(BleCommandView::SetAutoReconnect { enabled: false }),
            );
            let wanted = !s.connected && s.peripheral is Some && s.target_id is Some;
            &&& !off.0.reconnect_pending && off.0.reconnect_attempt == 0
            &&& off.1 =~= seq![
                WorkerActionView::Emit(
                    BleEventView::Status(
                        LocalizedTextView::Message { key: "自动重连已关闭"@, args: Seq::empty() },
                    ),
                ),
            ]
            &&& wanted ==> on.0.reconnect_pending && on.1.len() == 3 && on.1[0] is ArmReconnect
            &&& !wanted ==> on.0.reconnect_pending == s.reconnect_pending && on.1.len() == 1
            &&& on.1.last() == WorkerActionView::Emit(
                BleEventView::Status(
                    LocalizedTextView::Message { key: "自动重连已开启"@, args: Seq::empty() },
                ),
            )
            &&& on.0.connected == s.connected && on.0.peripheral == s.peripheral
            &&& off.0.connected == s.connected && off.0.peripheral == s.peripheral
        }),
{
}

/// Every command on characteristics and descriptors goes to the device as it is while one is
/// connected, and is refused otherwise.
pub proof fn operations_go_to_the_connected_device(s: WorkerStateView, command: BleCommandView)
    requires
        worker_wf(s),
        command is SubscribeAll || command is Subscribe || command is Read || command is Write
            || command is ReadDescriptor || command is WriteDescriptor,
    ensures
        ({
            let after = stepped(s, WorkerInputView::Command(command));
            &&& after.0 == s
            &&& after.1 =~= seq![
                if s.connected {
                    WorkerActionView::Operate(command)
                } else {
                    WorkerActionView::Emit(BleEventView::Error("当前没有已连接 BLE 设备"@))
                },
            ]
        }),
{
}

/// The outcome of an operation is reported with what was read or written; a failure as an error.
pub proof fn outcomes_are_reported(
    s: WorkerStateView,
    key: CharacteristicKeyView,
    descriptor: DescriptorKeyView,
    data: Seq<u8>,
    timestamp: Seq<char>,
    count: u64,
)
    ensures
        ({
            let says = |outcome: OperationOutcomeView, event: BleEventView|
                stepped(s, WorkerInputView::OperationFinished(outcome)).0 == s && stepped(
                    s,
                    WorkerInputView::OperationFinished(outcome),
                ).1 =~= seq![WorkerActionView::Emit(event)];
            &&& says(OperationOutcomeView::Failed(timestamp), BleEventView::Error(timestamp))
            &&& says(
                OperationOutcomeView::Subscribed { characteristic: key },
                BleEventView::Subscribed { characteristic: key },
            )
            &&& says(
                OperationOutcomeView::Read { characteristic: key, data, timestamp },
                BleEventView::ReadResult { characteristic: key, data, timestamp },
            )
            &&& says(
                OperationOutcomeView::Written { characteristic: key, data, timestamp },
                BleEventView::WriteComplete { characteristic: key, data, timestamp },
            )
            &&& says(
                OperationOutcomeView::DescriptorRead { descriptor, data, timestamp },
                BleEventView::DescriptorReadResult { descriptor, data, timestamp },
            )
            &&& says(
                OperationOutcomeView::DescriptorWritten { descriptor, data, timestamp },
                BleEventView::DescriptorWriteComplete { descriptor, data, timestamp },
            )
            &&& says(
                OperationOutcomeView::SubscribedAll { count },
                BleEventView::Status(
                    LocalizedTextView::Message {
                        key: "已订阅 {count} 个 Notify/Indicate Characteristic"@,
                        args: seq![text::decimal(count as nat)],
                    },
                ),
            )
        }),
{
}

/// What is seen of devices and of the adapter is passed on, and changes nothing.
pub proof fn observations_are_passed_on(
    s: WorkerStateView,
    id: Seq<char>,
    device: DeviceInfoView,
    rssi: i16,
    snapshot: GattSnapshotView,
)
    ensures
        ({
            let says = |input: WorkerInputView, action: WorkerActionView|
                stepped(s, input).0 == s && stepped(s, input).1 =~= seq![action];
            &&& says(
                WorkerInputView::DeviceSeen { peripheral_id: id },
                WorkerActionView::RefreshDevice { peripheral_id: id },
            )
            &&& says(
                WorkerInputView::DeviceRead { device },
                WorkerActionView::Emit(BleEventView::DeviceUpsert { device }),
            )
            &&& says(
                WorkerInputView::Rssi { peripheral_id: id, rssi },
                WorkerActionView::Emit(BleEventView::DeviceRssi { peripheral_id: id, rssi }),
            )
            &&& says(
                WorkerInputView::ServicesDiscovered { snapshot },
                WorkerActionView::Emit(BleEventView::GattDiscovered { snapshot }),
            )
            &&& says(
                WorkerInputView::DiscoveryFailed { error: id },
                WorkerActionView::Emit(BleEventView::Error("刷新 GATT 服务失败: "@ + id)),
            )
            &&& says(
                WorkerInputView::StateUpdate { state: CentralState::PoweredOn },
                WorkerActionView::Emit(BleEventView::AdapterState { state: "Powered On"@ }),
            )
            &&& says(
                WorkerInputView::StateUpdate { state: CentralState::PoweredOff },
                WorkerActionView::Emit(BleEventView::AdapterState { state: "Powered Off"@ }),
            )
            &&& says(
                WorkerInputView::StateUpdate { state: CentralState::Unknown },
                WorkerActionView::Emit(BleEventView::AdapterState { state: "Unknown"@ }),
            )
        }),
{
}

/// The end of the worker stops a running scan, the notifications and the connection, and then the
/// worker itself, after which nothing is left to do.
pub proof fn shutdown_ends_everything(s: WorkerStateView)
    ensures
        ({
            let actions = stepped(s, WorkerInputView::Command(BleCommandView::Shutdown)).1;
            &&& actions.last() == WorkerActionView::Stop
            &&& is_done(actions, WorkerActionView::AbortNotifications)
            &&& s.peripheral is Some ==> is_done(actions, WorkerActionView::DropPeripheral)
            &&& s.scanning ==> actions[0] == WorkerActionView::StopScanQuietly
            &&& actions.len() == 2 + (if s.scanning {
                1int
            } else {
                0int
            }) + (if s.peripheral is Some {
                1int
            } else {
                0int
            })
        }),
{
    let actions = stepped(s, WorkerInputView::Command(BleCommandView::Shutdown)).1;
    let scan: int = if s.scanning {
        1
    } else {
        0
    };
    assert(actions[scan] == WorkerActionView::AbortNotifications);
    if s.peripheral is Some {
        assert(actions[scan + 1] == WorkerActionView::DropPeripheral);
    }
}

/// The position of a characteristic is that of the first one with both its UUIDs; there is none
/// exactly where no characteristic has them. The same holds of the UUIDs of descriptors.
pub proof fn positions_are_those_of_the_first_match(
    keys: Seq<CharacteristicKeyView>,
    key: CharacteristicKeyView,
    items: Seq<Seq<char>>,
    wanted: Seq<char>,
)
    ensures
        0 <= key_position(keys, key) <= keys.len(),
        key_position(keys, key) < keys.len() ==> keys[key_position(keys, key)].service_uuid
            == key.service_uuid && keys[key_position(keys, key)].characteristic_uuid
            == key.characteristic_uuid,
        forall|i: int|
            0 <= i < key_position(keys, key) ==> (#[trigger] keys[i]).service_uuid
                != key.service_uuid || keys[i].characteristic_uuid != key.characteristic_uuid,
        0 <= text_position(items, wanted) <= items.len(),
        text_position(items, wanted) < items.len() ==> items[text_position(items, wanted)]
            == wanted,
        forall|i: int| 0 <= i < text_position(items, wanted) ==> #[trigger] items[i] != wanted,
    decreases keys.len() + items.len(),
{
    if keys.len() > 0 && keys[0] != key {
        positions_are_those_of_the_first_match(keys.skip(1), key, Seq::empty(), wanted);
        assert forall|i: int| 0 <= i < key_position(keys, key) implies (
        #[trigger] keys[i]).service_uuid != key.service_uuid || keys[i].characteristic_uuid
            != key.characteristic_uuid by {
            if i > 0 {
                assert(keys.skip(1)[i - 1] == keys[i]);
            }
        }
    }
    if items.len() > 0 && items[0] != wanted {
        positions_are_those_of_the_first_match(Seq::empty(), key, items.skip(1), wanted);
        assert forall|i: int| 0 <= i < text_position(items, wanted) implies #[trigger] items[i]
            != wanted by {
            if i > 0 {
                assert(items.skip(1)[i - 1] == items[i]);
            }
        }
    }
}

/// A described device keeps what the adapter gave, under its own name before the advertised one, and
/// its lists hold the same entries in the order of their numbers or texts.
pub proof fn described_devices_keep_their_properties(
    id: Seq<char>,
    address: Seq<char>,
    p: DeviceProperties,
    i: int,
    j: int,
)
    ensures
        ({
            let device = described_device(id, address, Some(p));
            let blank = described_device(id, address, None);
            &&& device.id == id && device.address == p.address@ && device.rssi == p.rssi
            &&& device.tx_power == p.tx_power && device.appearance == p.appearance
            &&& device.address_type == p.address_type.deep_view()
            &&& p.local_name matches Some(name) ==> device.name == name@
            &&& p.local_name is None ==> match p.advertisement_name {
                Some(name) => device.name == name@,
                None => device.name == "(unknown)"@,
            }
            &&& device.manufacturer_data.to_multiset()
                == p.manufacturer_data.deep_view().to_multiset()
            &&& device.service_data.to_multiset() == p.service_data.deep_view().to_multiset()
            &&& device.advertised_services.to_multiset() == p.services.deep_view().to_multiset()
            &&& 0 <= i < j < device.manufacturer_data.len()
                ==> device.manufacturer_data[i].company_id <= device.manufacturer_data[j].company_id
            &&& 0 <= i < j < device.service_data.len() ==> text::text_le(
                device.service_data[i].service_uuid,
                device.service_data[j].service_uuid,
            )
            &&& 0 <= i < j < device.advertised_services.len() ==> text::text_le(
                device.advertised_services[i],
                device.advertised_services[j],
            )
            &&& blank.id == id && blank.address == address && blank.name == "(unknown)"@
            &&& blank.rssi is None && blank.advertised_services.len() == 0
        }),
{
    let makers = |a: ManufacturerDataEntryView, b: ManufacturerDataEntryView|
        ManufacturerDataEntry::in_rank(a, b);
    let data = |a: ServiceDataEntryView, b: ServiceDataEntryView| ServiceDataEntry::in_rank(a, b);
    let texts = |a: Seq<char>, b: Seq<char>| String::in_rank(a, b);
    sorting::sorting_keeps_items(p.manufacturer_data.deep_view(), makers);
    sorting::sorting_keeps_items(p.service_data.deep_view(), data);
    sorting::sorting_keeps_items(p.services.deep_view(), texts);
    assert forall|a: ServiceDataEntryView, b: ServiceDataEntryView| #[trigger]
        data(a, b) || data(b, a) by {
        text::text_order_is_total(a.service_uuid, b.service_uuid);
    }
    assert forall|a: ServiceDataEntryView, b: ServiceDataEntryView, c: ServiceDataEntryView|
        #[trigger]
        data(a, b) && #[trigger] data(b, c) implies data(a, c) by {
        text::text_order_is_transitive(a.service_uuid, b.service_uuid, c.service_uuid);
    }
    assert forall|a: Seq<char>, b: Seq<char>| #[trigger] texts(a, b) || texts(b, a) by {
        text::text_order_is_total(a, b);
    }
    assert forall|a: Seq<char>, b: Seq<char>, c: Seq<char>| #[trigger]
        texts(a, b) && #[trigger] texts(b, c) implies texts(a, c) by {
        text::text_order_is_transitive(a, b, c);
    }
    sorting::sorting_sorts(p.manufacturer_data.deep_view(), makers);
    sorting::sorting_sorts(p.service_data.deep_view(), data);
    sorting::sorting_sorts(p.services.deep_view(), texts);
    let device = described_device(id, address, Some(p));
    if 0 <= i < j {
        assert(j < device.manufacturer_data.len() ==> makers(
            device.manufacturer_data[i],
            device.manufacturer_data[j],
        ));
        assert(j < device.service_data.len() ==> data(
            device.service_data[i],
            device.service_data[j],
        ));
        assert(j < device.advertised_services.len() ==> texts(
            device.advertised_services[i],
            device.advertised_services[j],
        ));
    }
}

/// A new worker uses the first adapter and has nothing to do: it does not scan, holds no device and
/// wants none, and reconnects are on.
pub proof fn new_workers_are_idle(adapters: Seq<AdapterInfoView>)
    requires
        adapters.len() > 0,
    ensures
        ({
            let s = fresh_worker(adapters);
            &&& s.adapters == adapters && s.selected_adapter == 0
            &&& !s.scanning && !s.connected && s.peripheral is None && s.target_id is None
            &&& s.auto_reconnect && s.reconnect_attempt == 0 && !s.reconnect_pending
            &&& worker_wf(s)
        }),
{
}

} // verus!
