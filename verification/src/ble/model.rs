//! What the worker and the user interface tell each other about adapters, devices and GATT.

use crate::i18n::LocalizedText;
#[allow(unused_imports)]
use crate::i18n::LocalizedTextView;
use vstd::prelude::*;
#[allow(unused_imports)]
use vstd::string::*;

verus! {

/// A Bluetooth adapter of this machine.
#[derive(Debug, PartialEq, Eq)]
pub struct AdapterInfo {
    /// Position among the adapters.
    pub index: usize,
    pub name: String,
    pub address: Option<String>,
    pub state: String,
}

/// The mathematical value of [`AdapterInfo`].
#[verifier::ext_equal]
pub struct AdapterInfoView {
    pub index: usize,
    pub name: Seq<char>,
    pub address: Option<Seq<char>>,
    pub state: Seq<char>,
}

impl DeepView for AdapterInfo {
    type V = AdapterInfoView;

    open spec fn deep_view(&self) -> AdapterInfoView {
        AdapterInfoView {
            index: self.index,
            name: self.name@,
            address: self.address.deep_view(),
            state: self.state@,
        }
    }
}

impl Clone for AdapterInfo {
    fn clone(&self) -> (r: Self)
        ensures
            r.deep_view() == self.deep_view(),
    {
        AdapterInfo {
            index: self.index,
            name: self.name.clone(),
            address: self.address.clone(),
            state: self.state.clone(),
        }
    }
}

/// The name of an adapter, with its address in brackets where it is known.
pub open spec fn adapter_label(adapter: AdapterInfoView) -> Seq<char> {
    match adapter.address {
        Some(address) => adapter.name + " ("@ + address + ")"@,
        None => adapter.name,
    }
}

impl AdapterInfo {
    /// How the adapter is shown in the selector.
    pub fn display_name(&self) -> (r: String)
        ensures
            r@ == adapter_label(self.deep_view()),
    {
        match &self.address {
            Some(address) => {
                let mut out = self.name.clone();
                out.append(" (");
                out.append(address.as_str());
                out.append(")");
                out
            },
            None => self.name.clone(),
        }
    }
}

/// One manufacturer record of an advertisement.
#[derive(Debug, PartialEq, Eq)]
pub struct ManufacturerDataEntry {
    pub company_id: u16,
    pub data: Vec<u8>,
}

/// The mathematical value of [`ManufacturerDataEntry`].
#[verifier::ext_equal]
pub struct ManufacturerDataEntryView {
    pub company_id: u16,
    pub data: Seq<u8>,
}

impl DeepView for ManufacturerDataEntry {
    type V = ManufacturerDataEntryView;

    open spec fn deep_view(&self) -> ManufacturerDataEntryView {
        ManufacturerDataEntryView {
            company_id: self.company_id,
            data: self.data@,
        }
    }
}

impl Clone for ManufacturerDataEntry {
    fn clone(&self) -> (r: Self)
        ensures
            r.deep_view() == self.deep_view(),
    {
        let r = ManufacturerDataEntry {
            company_id: self.company_id,
            data: self.data.clone(),
        };
        assert(r.data@ =~= self.data@);
        r
    }
}

/// One service record of an advertisement.
#[derive(Debug, PartialEq, Eq)]
pub struct ServiceDataEntry {
    pub service_uuid: String,
    pub data: Vec<u8>,
}

/// The mathematical value of [`ServiceDataEntry`].
#[verifier::ext_equal]
pub struct ServiceDataEntryView {
    pub service_uuid: Seq<char>,
    pub data: Seq<u8>,
}

impl DeepView for ServiceDataEntry {
    type V = ServiceDataEntryView;

    open spec fn deep_view(&self) -> ServiceDataEntryView {
        ServiceDataEntryView {
            service_uuid: self.service_uuid@,
            data: self.data@,
        }
    }
}

impl Clone for ServiceDataEntry {
    fn clone(&self) -> (r: Self)
        ensures
            r.deep_view() == self.deep_view(),
    {
        let r = ServiceDataEntry {
            service_uuid: self.service_uuid.clone(),
            data: self.data.clone(),
        };
        assert(r.data@ =~= self.data@);
        r
    }
}

/// A discovered device with its latest advertisement.
#[derive(Debug, PartialEq, Eq)]
pub struct DeviceInfo {
    pub id: String,
    pub name: String,
    pub address: String,
    pub address_type: Option<String>,
    pub rssi: Option<i16>,
    pub tx_power: Option<i16>,
    pub appearance: Option<u16>,
    pub manufacturer_data: Vec<ManufacturerDataEntry>,
    pub service_data: Vec<ServiceDataEntry>,
    pub advertised_services: Vec<String>,
}

/// The mathematical value of [`DeviceInfo`].
#[verifier::ext_equal]
pub struct DeviceInfoView {
    pub id: Seq<char>,
    pub name: Seq<char>,
    pub address: Seq<char>,
    pub address_type: Option<Seq<char>>,
    pub rssi: Option<i16>,
    pub tx_power: Option<i16>,
    pub appearance: Option<u16>,
    pub manufacturer_data: Seq<ManufacturerDataEntryView>,
    pub service_data: Seq<ServiceDataEntryView>,
    pub advertised_services: Seq<Seq<char>>,
}

impl DeepView for DeviceInfo {
    type V = DeviceInfoView;

    open spec fn deep_view(&self) -> DeviceInfoView {
        DeviceInfoView {
            id: self.id@,
            name: self.name@,
            address: self.address@,
            address_type: self.address_type.deep_view(),
            rssi: self.rssi,
            tx_power: self.tx_power,
            appearance: self.appearance,
            manufacturer_data: self.manufacturer_data.deep_view(),
            service_data: self.service_data.deep_view(),
            advertised_services: self.advertised_services.deep_view(),
        }
    }
}

impl Clone for DeviceInfo {
    fn clone(&self) -> (r: Self)
        ensures
            r.deep_view() == self.deep_view(),
    {
        let r = DeviceInfo {
            id: self.id.clone(),
            name: self.name.clone(),
            address: self.address.clone(),
            address_type: self.address_type.clone(),
            rssi: self.rssi,
            tx_power: self.tx_power,
            appearance: self.appearance,
            manufacturer_data: self.manufacturer_data.clone(),
            service_data: self.service_data.clone(),
            advertised_services: self.advertised_services.clone(),
        };
        assert(r.manufacturer_data.deep_view() =~= self.manufacturer_data.deep_view());
        assert(r.service_data.deep_view() =~= self.service_data.deep_view());
        assert(r.advertised_services.deep_view() =~= self.advertised_services.deep_view());
        r
    }
}

/// Names a characteristic.
#[derive(Debug, PartialEq, Eq, Hash)]
pub struct CharacteristicKey {
    pub service_uuid: String,
    pub characteristic_uuid: String,
}

/// The mathematical value of [`CharacteristicKey`].
#[verifier::ext_equal]
pub struct CharacteristicKeyView {
    pub service_uuid: Seq<char>,
    pub characteristic_uuid: Seq<char>,
}

impl DeepView for CharacteristicKey {
    type V = CharacteristicKeyView;

    open spec fn deep_view(&self) -> CharacteristicKeyView {
        CharacteristicKeyView {
            service_uuid: self.service_uuid@,
            characteristic_uuid: self.characteristic_uuid@,
        }
    }
}

impl Clone for CharacteristicKey {
    fn clone(&self) -> (r: Self)
        ensures
            r.deep_view() == self.deep_view(),
    {
        CharacteristicKey {
            service_uuid: self.service_uuid.clone(),
            characteristic_uuid: self.characteristic_uuid.clone(),
        }
    }
}

impl CharacteristicKey {
    /// Whether two keys name the same characteristic.
    pub fn same(&self, other: &CharacteristicKey) -> (r: bool)
        ensures
            r == (self.deep_view() == other.deep_view()),
    {
        self.service_uuid == other.service_uuid && self.characteristic_uuid
            == other.characteristic_uuid
    }
}

/// Names a descriptor.
#[derive(Debug, PartialEq, Eq, Hash)]
pub struct DescriptorKey {
    pub service_uuid: String,
    pub characteristic_uuid: String,
    pub descriptor_uuid: String,
}

/// The mathematical value of [`DescriptorKey`].
#[verifier::ext_equal]
pub struct DescriptorKeyView {
    pub service_uuid: Seq<char>,
    pub characteristic_uuid: Seq<char>,
    pub descriptor_uuid: Seq<char>,
}

impl DeepView for DescriptorKey {
    type V = DescriptorKeyView;

    open spec fn deep_view(&self) -> DescriptorKeyView {
        DescriptorKeyView {
            service_uuid: self.service_uuid@,
            characteristic_uuid: self.characteristic_uuid@,
            descriptor_uuid: self.descriptor_uuid@,
        }
    }
}

impl Clone for DescriptorKey {
    fn clone(&self) -> (r: Self)
        ensures
            r.deep_view() == self.deep_view(),
    {
        DescriptorKey {
            service_uuid: self.service_uuid.clone(),
            characteristic_uuid: self.characteristic_uuid.clone(),
            descriptor_uuid: self.descriptor_uuid.clone(),
        }
    }
}

/// What a characteristic allows.
#[derive(Debug, Clone, Copy, PartialEq, Eq)]
pub struct CharacteristicProperties {
    pub read: bool,
    pub write: bool,
    pub write_without_response: bool,
    pub notify: bool,
    pub indicate: bool,
}

impl Default for CharacteristicProperties {
    fn default() -> (r: Self)
        ensures
            r == (CharacteristicProperties {
                read: false,
                write: false,
                write_without_response: false,
                notify: false,
                indicate: false,
            }),
    {
        CharacteristicProperties {
            read: false,
            write: false,
            write_without_response: false,
            notify: false,
            indicate: false,
        }
    }
}

/// `list` with the mark appended behind a blank, or alone if the list is empty.
pub open spec fn with_mark(list: Seq<char>, present: bool, mark: Seq<char>) -> Seq<char> {
    if !present {
        list
    } else if list.len() == 0 {
        mark
    } else {
        list + " "@ + mark
    }
}

/// The marks of the properties that are present, in a fixed order.
pub open spec fn property_marks(p: CharacteristicProperties) -> Seq<char> {
    let read = with_mark(Seq::empty(), p.read, "R"@);
    let write = with_mark(read, p.write, "W"@);
    let quick = with_mark(write, p.write_without_response, "WNR"@);
    let notify = with_mark(quick, p.notify, "N"@);
    with_mark(notify, p.indicate, "I"@)
}

/// The marks, or a dash where no property is present.
pub open spec fn property_label(p: CharacteristicProperties) -> Seq<char> {
    if property_marks(p).len() == 0 {
        "-"@
    } else {
        property_marks(p)
    }
}

fn add_mark(list: &mut String, present: bool, mark: &str)
    ensures
        final(list)@ == with_mark(old(list)@, present, mark@),
{
    if present {
        if !list.as_str().is_empty() {
            list.append(" ");
        }
        list.append(mark);
        assert(old(list)@.len() == 0 ==> list@ =~= mark@);
    }
}

impl CharacteristicProperties {
    /// The properties as short marks.
    pub fn labels(self) -> (r: String)
        ensures
            r@ == property_label(self),
    {
        let mut list = String::new();
        add_mark(&mut list, self.read, "R");
        add_mark(&mut list, self.write, "W");
        add_mark(&mut list, self.write_without_response, "WNR");
        add_mark(&mut list, self.notify, "N");
        add_mark(&mut list, self.indicate, "I");
        if list.as_str().is_empty() {
            "-".to_owned()
        } else {
            list
        }
    }
}

/// A descriptor of a characteristic.
#[derive(Debug, PartialEq, Eq)]
pub struct DescriptorInfo {
    pub key: DescriptorKey,
}

/// The mathematical value of [`DescriptorInfo`].
#[verifier::ext_equal]
pub struct DescriptorInfoView {
    pub key: DescriptorKeyView,
}

impl DeepView for DescriptorInfo {
    type V = DescriptorInfoView;

    open spec fn deep_view(&self) -> DescriptorInfoView {
        DescriptorInfoView {
            key: self.key.deep_view(),
        }
    }
}

impl Clone for DescriptorInfo {
    fn clone(&self) -> (r: Self)
        ensures
            r.deep_view() == self.deep_view(),
    {
        DescriptorInfo {
            key: self.key.clone(),
        }
    }
}

/// A characteristic of a service.
#[derive(Debug, PartialEq, Eq)]
pub struct CharacteristicInfo {
    pub key: CharacteristicKey,
    pub properties: CharacteristicProperties,
    pub descriptors: Vec<DescriptorInfo>,
}

/// The mathematical value of [`CharacteristicInfo`].
#[verifier::ext_equal]
pub struct CharacteristicInfoView {
    pub key: CharacteristicKeyView,
    pub properties: CharacteristicProperties,
    pub descriptors: Seq<DescriptorInfoView>,
}

impl DeepView for CharacteristicInfo {
    type V = CharacteristicInfoView;

    open spec fn deep_view(&self) -> CharacteristicInfoView {
        CharacteristicInfoView {
            key: self.key.deep_view(),
            properties: self.properties,
            descriptors: self.descriptors.deep_view(),
        }
    }
}

impl Clone for CharacteristicInfo {
    fn clone(&self) -> (r: Self)
        ensures
            r.deep_view() == self.deep_view(),
    {
        let r = CharacteristicInfo {
            key: self.key.clone(),
            properties: self.properties,
            descriptors: self.descriptors.clone(),
        };
        assert(r.descriptors.deep_view() =~= self.descriptors.deep_view());
        r
    }
}

/// A service of a device.
#[derive(Debug, PartialEq, Eq)]
pub struct ServiceInfo {
    pub uuid: String,
    pub primary: bool,
    pub characteristics: Vec<CharacteristicInfo>,
}

/// The mathematical value of [`ServiceInfo`].
#[verifier::ext_equal]
pub struct ServiceInfoView {
    pub uuid: Seq<char>,
    pub primary: bool,
    pub characteristics: Seq<CharacteristicInfoView>,
}

impl DeepView for ServiceInfo {
    type V = ServiceInfoView;

    open spec fn deep_view(&self) -> ServiceInfoView {
        ServiceInfoView {
            uuid: self.uuid@,
            primary: self.primary,
            characteristics: self.characteristics.deep_view(),
        }
    }
}

impl Clone for ServiceInfo {
    fn clone(&self) -> (r: Self)
        ensures
            r.deep_view() == self.deep_view(),
    {
        let r = ServiceInfo {
            uuid: self.uuid.clone(),
            primary: self.primary,
            characteristics: self.characteristics.clone(),
        };
        assert(r.characteristics.deep_view() =~= self.characteristics.deep_view());
        r
    }
}

/// All services of the connected device.
#[derive(Debug, PartialEq, Eq)]
pub struct GattSnapshot {
    pub services: Vec<ServiceInfo>,
}

/// The mathematical value of [`GattSnapshot`].
#[verifier::ext_equal]
pub struct GattSnapshotView {
    pub services: Seq<ServiceInfoView>,
}

impl DeepView for GattSnapshot {
    type V = GattSnapshotView;

    open spec fn deep_view(&self) -> GattSnapshotView {
        GattSnapshotView {
            services: self.services.deep_view(),
        }
    }
}

impl Clone for GattSnapshot {
    fn clone(&self) -> (r: Self)
        ensures
            r.deep_view() == self.deep_view(),
    {
        let r = GattSnapshot {
            services: self.services.clone(),
        };
        assert(r.services.deep_view() =~= self.services.deep_view());
        r
    }
}

impl Default for GattSnapshot {
    fn default() -> (r: Self)
        ensures
            r.deep_view() == (GattSnapshotView { services: Seq::empty() }),
    {
        let r = GattSnapshot { services: Vec::new() };
        assert(r.services.deep_view() =~= Seq::empty());
        r
    }
}

/// What the user interface asks of the worker.
#[derive(Debug)]
pub enum BleCommand {
    SelectAdapter {
        index: usize,
    },
    StartScan {
        service_uuids: Vec<String>,
    },
    StopScan,
    Connect {
        peripheral_id: String,
    },
    Disconnect,
    SetAutoReconnect {
        enabled: bool,
    },
    SubscribeAll,
    Subscribe {
        characteristic: CharacteristicKey,
    },
    Read {
        characteristic: CharacteristicKey,
    },
    Write {
        characteristic: CharacteristicKey,
        data: Vec<u8>,
        with_response: bool,
    },
    ReadDescriptor {
        descriptor: DescriptorKey,
    },
    WriteDescriptor {
        descriptor: DescriptorKey,
        data: Vec<u8>,
    },
    Shutdown,
}

/// The mathematical value of [`BleCommand`].
#[verifier::ext_equal]
pub enum BleCommandView {
    SelectAdapter { index: usize },
    StartScan { service_uuids: Seq<Seq<char>> },
    StopScan,
    Connect { peripheral_id: Seq<char> },
    Disconnect,
    SetAutoReconnect { enabled: bool },
    SubscribeAll,
    Subscribe { characteristic: CharacteristicKeyView },
    Read { characteristic: CharacteristicKeyView },
    Write { characteristic: CharacteristicKeyView, data: Seq<u8>, with_response: bool },
    ReadDescriptor { descriptor: DescriptorKeyView },
    WriteDescriptor { descriptor: DescriptorKeyView, data: Seq<u8> },
    Shutdown,
}

impl DeepView for BleCommand {
    type V = BleCommandView;

    open spec fn deep_view(&self) -> BleCommandView {
        match *self {
            BleCommand::SelectAdapter { index } => BleCommandView::SelectAdapter {
                index,
            },
            BleCommand::StartScan { service_uuids } => BleCommandView::StartScan {
                service_uuids: service_uuids.deep_view(),
            },
            BleCommand::StopScan => BleCommandView::StopScan,
            BleCommand::Connect { peripheral_id } => BleCommandView::Connect {
                peripheral_id: peripheral_id@,
            },
            BleCommand::Disconnect => BleCommandView::Disconnect,
            BleCommand::SetAutoReconnect { enabled } => BleCommandView::SetAutoReconnect {
                enabled,
            },
            BleCommand::SubscribeAll => BleCommandView::SubscribeAll,
            BleCommand::Subscribe { characteristic } => BleCommandView::Subscribe {
                characteristic: characteristic.deep_view(),
            },
            BleCommand::Read { characteristic } => BleCommandView::Read {
                characteristic: characteristic.deep_view(),
            },
            BleCommand::Write { characteristic, data, with_response } => BleCommandView::Write {
                characteristic: characteristic.deep_view(),
                data: data@,
                with_response,
            },
            BleCommand::ReadDescriptor { descriptor } => BleCommandView::ReadDescriptor {
                descriptor: descriptor.deep_view(),
            },
            BleCommand::WriteDescriptor { descriptor, data } => BleCommandView::WriteDescriptor {
                descriptor: descriptor.deep_view(),
                data: data@,
            },
            BleCommand::Shutdown => BleCommandView::Shutdown,
        }
    }
}

impl Clone for BleCommand {
    fn clone(&self) -> (r: Self)
        ensures
            r.deep_view() == self.deep_view(),
    {
        match self {
            BleCommand::SelectAdapter { index } => BleCommand::SelectAdapter {
                index: *index,
            },
            BleCommand::StartScan { service_uuids } => {
                let service_uuids_copy = service_uuids.clone();
                assert(service_uuids_copy.deep_view() =~= service_uuids.deep_view());
                BleCommand::StartScan {
                    service_uuids: service_uuids_copy,
                }
            },
            BleCommand::StopScan => BleCommand::StopScan,
            BleCommand::Connect { peripheral_id } => BleCommand::Connect {
                peripheral_id: peripheral_id.clone(),
            },
            BleCommand::Disconnect => BleCommand::Disconnect,
            BleCommand::SetAutoReconnect { enabled } => BleCommand::SetAutoReconnect {
                enabled: *enabled,
            },
            BleCommand::SubscribeAll => BleCommand::SubscribeAll,
            BleCommand::Subscribe { characteristic } => BleCommand::Subscribe {
                characteristic: characteristic.clone(),
            },
            BleCommand::Read { characteristic } => BleCommand::Read {
                characteristic: characteristic.clone(),
            },
            BleCommand::Write { characteristic, data, with_response } => {
                let data_copy = data.clone();
                assert(data_copy@ =~= data@);
                BleCommand::Write {
                    characteristic: characteristic.clone(),
                    data: data_copy,
                    with_response: *with_response,
                }
            },
            BleCommand::ReadDescriptor { descriptor } => BleCommand::ReadDescriptor {
                descriptor: descriptor.clone(),
            },
            BleCommand::WriteDescriptor { descriptor, data } => {
                let data_copy = data.clone();
                assert(data_copy@ =~= data@);
                BleCommand::WriteDescriptor {
                    descriptor: descriptor.clone(),
                    data: data_copy,
                }
            },
            BleCommand::Shutdown => BleCommand::Shutdown,
        }
    }
}

/// What the worker reports to the user interface.
#[derive(Debug)]
pub enum BleEvent {
    Ready {
        adapters: Vec<AdapterInfo>,
        selected_adapter: usize,
    },
    AdapterSelected {
        adapter: AdapterInfo,
    },
    AdapterState {
        state: String,
    },
    DevicesCleared,
    ScanStarted,
    ScanStopped,
    DeviceUpsert {
        device: DeviceInfo,
    },
    DeviceRssi {
        peripheral_id: String,
        rssi: i16,
    },
    Connecting {
        peripheral_id: String,
        reconnect: bool,
        attempt: u32,
    },
    Connected {
        peripheral_id: String,
        name: String,
        mtu: u16,
    },
    Disconnected {
        peripheral_id: Option<String>,
        unexpected: bool,
    },
    ReconnectScheduled {
        attempt: u32,
        delay_ms: u64,
    },
    ReconnectFailed {
        attempt: u32,
        error: String,
    },
    GattDiscovered {
        snapshot: GattSnapshot,
    },
    Subscribed {
        characteristic: CharacteristicKey,
    },
    Notification {
        characteristic: CharacteristicKey,
        data: Vec<u8>,
        timestamp: String,
    },
    ReadResult {
        characteristic: CharacteristicKey,
        data: Vec<u8>,
        timestamp: String,
    },
    WriteComplete {
        characteristic: CharacteristicKey,
        data: Vec<u8>,
        timestamp: String,
    },
    DescriptorReadResult {
        descriptor: DescriptorKey,
        data: Vec<u8>,
        timestamp: String,
    },
    DescriptorWriteComplete {
        descriptor: DescriptorKey,
        data: Vec<u8>,
        timestamp: String,
    },
    Status(LocalizedText),
    Error(String),
    Fatal(String),
}

/// The mathematical value of [`BleEvent`].
#[verifier::ext_equal]
pub enum BleEventView {
    Ready { adapters: Seq<AdapterInfoView>, selected_adapter: usize },
    AdapterSelected { adapter: AdapterInfoView },
    AdapterState { state: Seq<char> },
    DevicesCleared,
    ScanStarted,
    ScanStopped,
    DeviceUpsert { device: DeviceInfoView },
    DeviceRssi { peripheral_id: Seq<char>, rssi: i16 },
    Connecting { peripheral_id: Seq<char>, reconnect: bool, attempt: u32 },
    Connected { peripheral_id: Seq<char>, name: Seq<char>, mtu: u16 },
    Disconnected { peripheral_id: Option<Seq<char>>, unexpected: bool },
    ReconnectScheduled { attempt: u32, delay_ms: u64 },
    ReconnectFailed { attempt: u32, error: Seq<char> },
    GattDiscovered { snapshot: GattSnapshotView },
    Subscribed { characteristic: CharacteristicKeyView },
    Notification { characteristic: CharacteristicKeyView, data: Seq<u8>, timestamp: Seq<char> },
    ReadResult { characteristic: CharacteristicKeyView, data: Seq<u8>, timestamp: Seq<char> },
    WriteComplete { characteristic: CharacteristicKeyView, data: Seq<u8>, timestamp: Seq<char> },
    DescriptorReadResult { descriptor: DescriptorKeyView, data: Seq<u8>, timestamp: Seq<char> },
    DescriptorWriteComplete { descriptor: DescriptorKeyView, data: Seq<u8>, timestamp: Seq<char> },
    Status(LocalizedTextView),
    Error(Seq<char>),
    Fatal(Seq<char>),
}

impl DeepView for BleEvent {
    type V = BleEventView;

    open spec fn deep_view(&self) -> BleEventView {
        match *self {
            BleEvent::Ready { adapters, selected_adapter } => BleEventView::Ready {
                adapters: adapters.deep_view(),
                selected_adapter,
            },
            BleEvent::AdapterSelected { adapter } => BleEventView::AdapterSelected {
                adapter: adapter.deep_view(),
            },
            BleEvent::AdapterState { state } => BleEventView::AdapterState {
                state: state@,
            },
            BleEvent::DevicesCleared => BleEventView::DevicesCleared,
            BleEvent::ScanStarted => BleEventView::ScanStarted,
            BleEvent::ScanStopped => BleEventView::ScanStopped,
            BleEvent::DeviceUpsert { device } => BleEventView::DeviceUpsert {
                device: device.deep_view(),
            },
            BleEvent::DeviceRssi { peripheral_id, rssi } => BleEventView::DeviceRssi {
                peripheral_id: peripheral_id@,
                rssi,
            },
            BleEvent::Connecting { peripheral_id, reconnect, attempt } => BleEventView::Connecting {
                peripheral_id: peripheral_id@,
                reconnect,
                attempt,
            },
            BleEvent::Connected { peripheral_id, name, mtu } => BleEventView::Connected {
                peripheral_id: peripheral_id@,
                name: name@,
                mtu,
            },
            BleEvent::Disconnected { peripheral_id, unexpected } => BleEventView::Disconnected {
                peripheral_id: peripheral_id.deep_view(),
                unexpected,
            },
            BleEvent::ReconnectScheduled { attempt, delay_ms } => BleEventView::ReconnectScheduled {
                attempt,
                delay_ms,
            },
            BleEvent::ReconnectFailed { attempt, error } => BleEventView::ReconnectFailed {
                attempt,
                error: error@,
            },
            BleEvent::GattDiscovered { snapshot } => BleEventView::GattDiscovered {
                snapshot: snapshot.deep_view(),
            },
            BleEvent::Subscribed { characteristic } => BleEventView::Subscribed {
                characteristic: characteristic.deep_view(),
            },
            BleEvent::Notification { characteristic, data, timestamp } => BleEventView::Notification {
                characteristic: characteristic.deep_view(),
                data: data@,
                timestamp: timestamp@,
            },
            BleEvent::ReadResult { characteristic, data, timestamp } => BleEventView::ReadResult {
                characteristic: characteristic.deep_view(),
                data: data@,
                timestamp: timestamp@,
            },
            BleEvent::WriteComplete { characteristic, data, timestamp } => BleEventView::WriteComplete {
                characteristic: characteristic.deep_view(),
                data: data@,
                timestamp: timestamp@,
            },
            BleEvent::DescriptorReadResult { descriptor, data, timestamp } => BleEventView::DescriptorReadResult {
                descriptor: descriptor.deep_view(),
                data: data@,
                timestamp: timestamp@,
            },
            BleEvent::DescriptorWriteComplete { descriptor, data, timestamp } => BleEventView::DescriptorWriteComplete {
                descriptor: descriptor.deep_view(),
                data: data@,
                timestamp: timestamp@,
            },
            BleEvent::Status(value) => BleEventView::Status(value.deep_view()),
            BleEvent::Error(value) => BleEventView::Error(value@),
            BleEvent::Fatal(value) => BleEventView::Fatal(value@),
        }
    }
}

impl Clone for BleEvent {
    fn clone(&self) -> (r: Self)
        ensures
            r.deep_view() == self.deep_view(),
    {
        match self {
            BleEvent::Ready { adapters, selected_adapter } => {
                let adapters_copy = adapters.clone();
                assert(adapters_copy.deep_view() =~= adapters.deep_view());
                BleEvent::Ready {
                    adapters: adapters_copy,
                    selected_adapter: *selected_adapter,
                }
            },
            BleEvent::AdapterSelected { adapter } => BleEvent::AdapterSelected {
                adapter: adapter.clone(),
            },
            BleEvent::AdapterState { state } => BleEvent::AdapterState {
                state: state.clone(),
            },
            BleEvent::DevicesCleared => BleEvent::DevicesCleared,
            BleEvent::ScanStarted => BleEvent::ScanStarted,
            BleEvent::ScanStopped => BleEvent::ScanStopped,
            BleEvent::DeviceUpsert { device } => BleEvent::DeviceUpsert {
                device: device.clone(),
            },
            BleEvent::DeviceRssi { peripheral_id, rssi } => BleEvent::DeviceRssi {
                peripheral_id: peripheral_id.clone(),
                rssi: *rssi,
            },
            BleEvent::Connecting { peripheral_id, reconnect, attempt } => BleEvent::Connecting {
                peripheral_id: peripheral_id.clone(),
                reconnect: *reconnect,
                attempt: *attempt,
            },
            BleEvent::Connected { peripheral_id, name, mtu } => BleEvent::Connected {
                peripheral_id: peripheral_id.clone(),
                name: name.clone(),
                mtu: *mtu,
            },
            BleEvent::Disconnected { peripheral_id, unexpected } => BleEvent::Disconnected {
                peripheral_id: peripheral_id.clone(),
                unexpected: *unexpected,
            },
            BleEvent::ReconnectScheduled { attempt, delay_ms } => BleEvent::ReconnectScheduled {
                attempt: *attempt,
                delay_ms: *delay_ms,
            },
            BleEvent::ReconnectFailed { attempt, error } => BleEvent::ReconnectFailed {
                attempt: *attempt,
                error: error.clone(),
            },
            BleEvent::GattDiscovered { snapshot } => BleEvent::GattDiscovered {
                snapshot: snapshot.clone(),
            },
            BleEvent::Subscribed { characteristic } => BleEvent::Subscribed {
                characteristic: characteristic.clone(),
            },
            BleEvent::Notification { characteristic, data, timestamp } => {
                let data_copy = data.clone();
                assert(data_copy@ =~= data@);
                BleEvent::Notification {
                    characteristic: characteristic.clone(),
                    data: data_copy,
                    timestamp: timestamp.clone(),
                }
            },
            BleEvent::ReadResult { characteristic, data, timestamp } => {
                let data_copy = data.clone();
                assert(data_copy@ =~= data@);
                BleEvent::ReadResult {
                    characteristic: characteristic.clone(),
                    data: data_copy,
                    timestamp: timestamp.clone(),
                }
            },
            BleEvent::WriteComplete { characteristic, data, timestamp } => {
                let data_copy = data.clone();
                assert(data_copy@ =~= data@);
                BleEvent::WriteComplete {
                    characteristic: characteristic.clone(),
                    data: data_copy,
                    timestamp: timestamp.clone(),
                }
            },
            BleEvent::DescriptorReadResult { descriptor, data, timestamp } => {
                let data_copy = data.clone();
                assert(data_copy@ =~= data@);
                BleEvent::DescriptorReadResult {
                    descriptor: descriptor.clone(),
                    data: data_copy,
                    timestamp: timestamp.clone(),
                }
            },
            BleEvent::DescriptorWriteComplete { descriptor, data, timestamp } => {
                let data_copy = data.clone();
                assert(data_copy@ =~= data@);
                BleEvent::DescriptorWriteComplete {
                    descriptor: descriptor.clone(),
                    data: data_copy,
                    timestamp: timestamp.clone(),
                }
            },
            BleEvent::Status(value) => BleEvent::Status(value.clone()),
            BleEvent::Error(value) => BleEvent::Error(value.clone()),
            BleEvent::Fatal(value) => BleEvent::Fatal(value.clone()),
        }
    }
}

/// The marks of a characteristic, each property with its own, in the order of reading, writing,
/// writing without a response, notifying and indicating, with a blank between them.
pub proof fn properties_are_marked_in_order(p: CharacteristicProperties)
    ensures
        ({
            let marks = seq![
                if p.read { "R"@ } else { ""@ },
                if p.write { "W"@ } else { ""@ },
                if p.write_without_response { "WNR"@ } else { ""@ },
                if p.notify { "N"@ } else { ""@ },
                if p.indicate { "I"@ } else { ""@ },
            ];
            let none = !p.read && !p.write && !p.write_without_response && !p.notify && !p.indicate;
            &&& none ==> property_label(p) == "-"@
            &&& !none ==> property_label(p) == blank_joined(marks)
        }),
{
    reveal_strlit("R");
    reveal_strlit("W");
    reveal_strlit("WNR");
    reveal_strlit("N");
    reveal_strlit("I");
    reveal_strlit("");
    reveal_strlit(" ");
    reveal_with_fuel(blank_joined, 6);
    let marks = seq![
        if p.read { "R"@ } else { ""@ },
        if p.write { "W"@ } else { ""@ },
        if p.write_without_response { "WNR"@ } else { ""@ },
        if p.notify { "N"@ } else { ""@ },
        if p.indicate { "I"@ } else { ""@ },
    ];
    let four = marks.drop_last();
    let three = four.drop_last();
    let two = three.drop_last();
    let one = two.drop_last();
    assert(one.drop_last() =~= Seq::<Seq<char>>::empty());
    assert(one.last() == marks[0] && two.last() == marks[1] && three.last() == marks[2]
        && four.last() == marks[3] && marks.last() == marks[4]);
}

/// The texts that are not empty, with a blank between them.
pub open spec fn blank_joined(parts: Seq<Seq<char>>) -> Seq<char>
    decreases parts.len(),
{
    if parts.len() == 0 {
        Seq::empty()
    } else if parts.last().len() == 0 {
        blank_joined(parts.drop_last())
    } else if blank_joined(parts.drop_last()).len() == 0 {
        parts.last()
    } else {
        blank_joined(parts.drop_last()) + " "@ + parts.last()
    }
}

} // verus!
