//! The decisions of the worker.

use bluetooth_monitor::ble::model::{
    AdapterInfo, BleCommand, BleEvent, CharacteristicKey, CharacteristicProperties, DescriptorKey,
    GattSnapshot, ManufacturerDataEntry, ServiceDataEntry,
};
use bluetooth_monitor::ble::worker::{
    adapter_entry, can_subscribe, central_state_label, choose_name, delay_before, device_info,
    find_characteristic, find_descriptor, find_descriptor_owner, with_cause, CentralState,
    DeviceProperties, Established, OperationOutcome, WorkerAction, WorkerInput, WorkerState,
};
use bluetooth_monitor::i18n::LocalizedText;

fn adapters() -> Vec<AdapterInfo> {
    vec![
        adapter_entry(0, Some("hci0".to_owned()), None, Some(CentralState::PoweredOn)),
        adapter_entry(1, None, Some("AA".to_owned()), None),
    ]
}

fn worker() -> WorkerState {
    WorkerState::start(adapters()).unwrap().0
}

fn command(worker: &mut WorkerState, command: BleCommand) -> Vec<String> {
    step(worker, WorkerInput::Command(command))
}

fn step(worker: &mut WorkerState, input: WorkerInput) -> Vec<String> {
    assert!(worker.expects(&input));
    worker.step(input).iter().map(|action| format!("{action:?}")).collect()
}

fn shown(actions: &[WorkerAction]) -> Vec<String> {
    actions.iter().map(|action| format!("{action:?}")).collect()
}

fn emitted(event: BleEvent) -> WorkerAction {
    WorkerAction::Emit(event)
}

fn established() -> Established {
    Established { name: None, mtu: 23, snapshot: GattSnapshot::default() }
}

fn connected_worker() -> WorkerState {
    let mut worker = worker();
    command(&mut worker, BleCommand::Connect { peripheral_id: "dev".to_owned() });
    step(
        &mut worker,
        WorkerInput::PeripheralFound {
            peripheral_id: "dev".to_owned(),
            reconnect: false,
            error: None,
        },
    );
    step(&mut worker, WorkerInput::Connected { established: established() });
    worker
}

#[test]
fn worker_needs_an_adapter() {
    assert_eq!(WorkerState::start(Vec::new()).unwrap_err(), "没有找到 Bluetooth Adapter");
    let (worker, event) = WorkerState::start(adapters()).unwrap();
    assert!(worker.auto_reconnect);
    assert!(matches!(
        event,
        BleEvent::Ready { adapters, selected_adapter: 0 } if adapters.len() == 2
    ));
}

#[test]
fn adapters_are_described() {
    let list = adapters();
    assert_eq!(list[0].state, "Powered On");
    assert_eq!(list[1].name, "Bluetooth Adapter 1");
    assert_eq!(list[1].state, "Unknown");
    assert_eq!(central_state_label(CentralState::PoweredOff), "Powered Off");
}

#[test]
fn connecting_looks_for_the_peripheral_first() {
    let mut worker = worker();
    assert_eq!(
        command(&mut worker, BleCommand::Connect { peripheral_id: "dev".to_owned() }),
        shown(&[
            WorkerAction::AbortNotifications,
            WorkerAction::FindPeripheral { peripheral_id: "dev".to_owned(), reconnect: false },
        ])
    );
    assert_eq!(worker.target_id, None);
    assert_eq!(
        step(
            &mut worker,
            WorkerInput::PeripheralFound {
                peripheral_id: "dev".to_owned(),
                reconnect: false,
                error: None,
            }
        ),
        shown(&[
            emitted(BleEvent::Connecting {
                peripheral_id: "dev".to_owned(),
                reconnect: false,
                attempt: 0,
            }),
            WorkerAction::Establish { reconnect: false, attempt: 0 },
        ])
    );
    assert_eq!(
        step(&mut worker, WorkerInput::Connected { established: established() }),
        shown(&[
            emitted(BleEvent::Connected {
                peripheral_id: "dev".to_owned(),
                name: "(unknown)".to_owned(),
                mtu: 23,
            }),
            emitted(BleEvent::GattDiscovered { snapshot: GattSnapshot::default() }),
            WorkerAction::EnsureNotifications,
        ])
    );
    assert!(worker.connected);
    assert_eq!(worker.target_id, Some("dev".to_owned()));
}

#[test]
fn unknown_peripherals_are_reported() {
    let mut worker = worker();
    command(&mut worker, BleCommand::Connect { peripheral_id: "dev".to_owned() });
    assert_eq!(
        step(
            &mut worker,
            WorkerInput::PeripheralFound {
                peripheral_id: "dev".to_owned(),
                reconnect: false,
                error: Some("gone".to_owned()),
            }
        ),
        shown(&[emitted(BleEvent::Error("gone".to_owned()))])
    );
    assert_eq!(worker.peripheral, None);
}

#[test]
fn failed_connections_are_tried_again() {
    let mut worker = worker();
    command(&mut worker, BleCommand::Connect { peripheral_id: "dev".to_owned() });
    step(
        &mut worker,
        WorkerInput::PeripheralFound {
            peripheral_id: "dev".to_owned(),
            reconnect: false,
            error: None,
        },
    );
    assert_eq!(
        step(
            &mut worker,
            WorkerInput::ConnectFailed {
                reconnect: false,
                attempt: 0,
                error: "timeout".to_owned(),
            }
        ),
        shown(&[
            emitted(BleEvent::Error("连接失败: timeout".to_owned())),
            WorkerAction::ArmReconnect { delay_ms: 1_000 },
            emitted(BleEvent::ReconnectScheduled { attempt: 1, delay_ms: 1_000 }),
        ])
    );
    assert!(worker.reconnect_pending);
    assert_eq!(
        step(&mut worker, WorkerInput::ReconnectDue),
        shown(&[
            emitted(BleEvent::Connecting {
                peripheral_id: "dev".to_owned(),
                reconnect: true,
                attempt: 1,
            }),
            WorkerAction::Establish { reconnect: true, attempt: 1 },
        ])
    );
    assert_eq!(
        step(
            &mut worker,
            WorkerInput::ConnectFailed { reconnect: true, attempt: 1, error: "again".to_owned() }
        ),
        shown(&[
            emitted(BleEvent::ReconnectFailed { attempt: 1, error: "again".to_owned() }),
            WorkerAction::ArmReconnect { delay_ms: 2_000 },
            emitted(BleEvent::ReconnectScheduled { attempt: 2, delay_ms: 2_000 }),
        ])
    );
}

#[test]
fn lost_devices_are_reconnected() {
    let mut worker = connected_worker();
    assert_eq!(
        step(
            &mut worker,
            WorkerInput::DeviceDisconnected { peripheral_id: "other".to_owned() }
        ),
        Vec::<String>::new()
    );
    assert_eq!(
        step(&mut worker, WorkerInput::DeviceDisconnected { peripheral_id: "dev".to_owned() }),
        shown(&[
            emitted(BleEvent::Disconnected {
                peripheral_id: Some("dev".to_owned()),
                unexpected: true,
            }),
            WorkerAction::ArmReconnect { delay_ms: 1_000 },
            emitted(BleEvent::ReconnectScheduled { attempt: 1, delay_ms: 1_000 }),
        ])
    );
    step(&mut worker, WorkerInput::ReconnectDue);
    step(&mut worker, WorkerInput::Connected { established: established() });
    assert_eq!(worker.reconnect_attempt, 0);
}

#[test]
fn reconnects_can_be_switched_off() {
    let mut worker = connected_worker();
    assert_eq!(
        command(&mut worker, BleCommand::SetAutoReconnect { enabled: false }),
        shown(&[emitted(BleEvent::Status(LocalizedText::plain("自动重连已关闭")))])
    );
    assert_eq!(
        step(&mut worker, WorkerInput::DeviceDisconnected { peripheral_id: "dev".to_owned() }),
        shown(&[emitted(BleEvent::Disconnected {
            peripheral_id: Some("dev".to_owned()),
            unexpected: true,
        })])
    );
    assert!(!worker.reconnect_pending);
    assert_eq!(step(&mut worker, WorkerInput::ReconnectDue), Vec::<String>::new());
    assert_eq!(
        command(&mut worker, BleCommand::SetAutoReconnect { enabled: true }),
        shown(&[
            WorkerAction::ArmReconnect { delay_ms: 1_000 },
            emitted(BleEvent::ReconnectScheduled { attempt: 1, delay_ms: 1_000 }),
            emitted(BleEvent::Status(LocalizedText::plain("自动重连已开启"))),
        ])
    );
}

#[test]
fn pauses_double_up_to_the_limit() {
    assert_eq!(
        [0, 1, 2, 3, 4, 5, 6, u32::MAX].map(delay_before),
        [1_000, 1_000, 2_000, 4_000, 8_000, 10_000, 10_000, 10_000]
    );
}

#[test]
fn disconnecting_ends_every_reconnect() {
    let mut worker = connected_worker();
    assert_eq!(
        command(&mut worker, BleCommand::Disconnect),
        shown(&[WorkerAction::AbortNotifications, WorkerAction::Disconnect])
    );
    assert_eq!(
        step(
            &mut worker,
            WorkerInput::DisconnectFinished { error: Some("busy".to_owned()) }
        ),
        shown(&[
            emitted(BleEvent::Error("断开 BLE 设备失败: busy".to_owned())),
            emitted(BleEvent::Disconnected {
                peripheral_id: Some("dev".to_owned()),
                unexpected: false,
            }),
        ])
    );
    assert!(!worker.connected && !worker.reconnect_pending);
    assert_eq!(worker.target_id, None);
    assert_eq!(
        command(&mut worker, BleCommand::Disconnect),
        shown(&[
            WorkerAction::AbortNotifications,
            emitted(BleEvent::Disconnected { peripheral_id: None, unexpected: false }),
        ])
    );
}

#[test]
fn switching_the_adapter_lets_everything_go() {
    let mut worker = connected_worker();
    step(&mut worker, WorkerInput::ScanStarted { error: None });
    assert_eq!(
        command(&mut worker, BleCommand::SelectAdapter { index: 1 }),
        shown(&[
            WorkerAction::StopScanQuietly,
            emitted(BleEvent::ScanStopped),
            WorkerAction::AbortNotifications,
            WorkerAction::DropPeripheral,
            emitted(BleEvent::Disconnected { peripheral_id: None, unexpected: false }),
            WorkerAction::OpenAdapter { index: 1 },
        ])
    );
    assert_eq!(worker.selected_adapter, 0);
    assert_eq!(
        step(
            &mut worker,
            WorkerInput::AdapterOpened { index: 1, error: Some("no".to_owned()) }
        ),
        shown(&[emitted(BleEvent::Error("切换 Adapter 失败: no".to_owned()))])
    );
    assert_eq!(
        step(&mut worker, WorkerInput::AdapterOpened { index: 1, error: None }),
        shown(&[
            emitted(BleEvent::DevicesCleared),
            emitted(BleEvent::AdapterSelected { adapter: adapters()[1].clone() }),
        ])
    );
    assert_eq!(worker.selected_adapter, 1);
    assert_eq!(
        command(&mut worker, BleCommand::SelectAdapter { index: 1 }),
        Vec::<String>::new()
    );
    assert_eq!(
        command(&mut worker, BleCommand::SelectAdapter { index: 2 }),
        shown(&[emitted(BleEvent::Error("Adapter index 2 不存在".to_owned()))])
    );
}

#[test]
fn scans_start_and_stop_once() {
    let mut worker = worker();
    let start = || BleCommand::StartScan { service_uuids: vec!["180D".to_owned()] };
    assert_eq!(
        command(&mut worker, start()),
        shown(&[WorkerAction::StartScan {
            services: vec![0x0000_180D_0000_1000_8000_0080_5F9B_34FB],
        }])
    );
    assert_eq!(
        step(&mut worker, WorkerInput::ScanStarted { error: Some("off".to_owned()) }),
        shown(&[emitted(BleEvent::Error("启动 BLE 扫描失败: off".to_owned()))])
    );
    assert_eq!(
        step(&mut worker, WorkerInput::ScanStarted { error: None }),
        shown(&[emitted(BleEvent::ScanStarted), WorkerAction::ReportKnownDevices])
    );
    assert_eq!(command(&mut worker, start()), Vec::<String>::new());
    assert_eq!(command(&mut worker, BleCommand::StopScan), shown(&[WorkerAction::StopScan]));
    assert_eq!(
        step(&mut worker, WorkerInput::ScanStopped { error: Some("busy".to_owned()) }),
        shown(&[emitted(BleEvent::Error("停止 BLE 扫描失败: busy".to_owned()))])
    );
    assert_eq!(
        step(&mut worker, WorkerInput::ScanStopped { error: None }),
        shown(&[emitted(BleEvent::ScanStopped)])
    );
    assert_eq!(command(&mut worker, BleCommand::StopScan), Vec::<String>::new());
    let bad = command(
        &mut worker,
        BleCommand::StartScan { service_uuids: vec!["xyz".to_owned()] },
    );
    assert_eq!(bad.len(), 1);
    assert!(bad[0].contains("扫描 Service UUID 无效: 无法解析 UUID xyz: "), "{}", bad[0]);
    assert_eq!(
        shown(&worker.start_scan(Err("why".to_owned()))),
        shown(&[emitted(BleEvent::Error("扫描 Service UUID 无效: why".to_owned()))])
    );
}

fn key(name: &str) -> CharacteristicKey {
    CharacteristicKey { service_uuid: "s".to_owned(), characteristic_uuid: name.to_owned() }
}

#[test]
fn operations_need_a_connected_device() {
    let read = || BleCommand::Read { characteristic: key("c") };
    let mut worker = worker();
    assert_eq!(
        command(&mut worker, read()),
        shown(&[emitted(BleEvent::Error("当前没有已连接 BLE 设备".to_owned()))])
    );
    let mut worker = connected_worker();
    assert_eq!(command(&mut worker, read()), shown(&[WorkerAction::Operate(read())]));
    assert_eq!(
        step(
            &mut worker,
            WorkerInput::OperationFinished(OperationOutcome::Read {
                characteristic: key("c"),
                data: vec![1],
                timestamp: "t".to_owned(),
            })
        ),
        shown(&[emitted(BleEvent::ReadResult {
            characteristic: key("c"),
            data: vec![1],
            timestamp: "t".to_owned(),
        })])
    );
    assert_eq!(
        step(
            &mut worker,
            WorkerInput::OperationFinished(OperationOutcome::SubscribedAll { count: 3 })
        ),
        shown(&[emitted(BleEvent::Status(LocalizedText::with_one(
            "已订阅 {count} 个 Notify/Indicate Characteristic",
            "3".to_owned()
        )))])
    );
    assert_eq!(
        step(
            &mut worker,
            WorkerInput::OperationFinished(OperationOutcome::Failed(with_cause("a", "b")))
        ),
        shown(&[emitted(BleEvent::Error("a: b".to_owned()))])
    );
}

#[test]
fn services_are_read_again_for_the_connected_device_only() {
    let mut worker = connected_worker();
    let modified = |id: &str| WorkerInput::ServicesModified { peripheral_id: id.to_owned() };
    assert_eq!(step(&mut worker, modified("other")), Vec::<String>::new());
    assert_eq!(step(&mut worker, modified("dev")), shown(&[WorkerAction::DiscoverServices]));
    assert_eq!(
        step(&mut worker, WorkerInput::DiscoveryFailed { error: "no".to_owned() }),
        shown(&[emitted(BleEvent::Error("刷新 GATT 服务失败: no".to_owned()))])
    );
    assert_eq!(
        step(&mut worker, WorkerInput::StateUpdate { state: CentralState::PoweredOff }),
        shown(&[emitted(BleEvent::AdapterState { state: "Powered Off".to_owned() })])
    );
    assert_eq!(
        step(&mut worker, WorkerInput::Rssi { peripheral_id: "x".to_owned(), rssi: -9 }),
        shown(&[emitted(BleEvent::DeviceRssi { peripheral_id: "x".to_owned(), rssi: -9 })])
    );
}

#[test]
fn shutdown_lets_everything_go() {
    let mut worker = connected_worker();
    assert_eq!(
        command(&mut worker, BleCommand::Shutdown),
        shown(&[
            WorkerAction::AbortNotifications,
            WorkerAction::DropPeripheral,
            WorkerAction::Stop,
        ])
    );
}

#[test]
fn devices_are_described_with_sorted_lists() {
    let properties = DeviceProperties {
        local_name: None,
        advertisement_name: Some("adv".to_owned()),
        address: "AA".to_owned(),
        address_type: Some("Public".to_owned()),
        rssi: Some(-5),
        tx_power: None,
        appearance: Some(1),
        manufacturer_data: vec![
            ManufacturerDataEntry { company_id: 9, data: vec![9] },
            ManufacturerDataEntry { company_id: 2, data: vec![2] },
        ],
        service_data: vec![
            ServiceDataEntry { service_uuid: "b".to_owned(), data: vec![] },
            ServiceDataEntry { service_uuid: "a".to_owned(), data: vec![] },
        ],
        services: vec!["z".to_owned(), "y".to_owned(), "z".to_owned()],
    };
    let device = device_info("id".to_owned(), "unused".to_owned(), Some(properties));
    assert_eq!(device.name, "adv");
    assert_eq!(device.address, "AA");
    assert_eq!(
        device.manufacturer_data.iter().map(|e| e.company_id).collect::<Vec<_>>(),
        vec![2, 9]
    );
    assert_eq!(
        device.service_data.iter().map(|e| e.service_uuid.as_str()).collect::<Vec<_>>(),
        vec!["a", "b"]
    );
    assert_eq!(device.advertised_services, vec!["y", "z", "z"]);
    let unknown = device_info("id".to_owned(), "BB".to_owned(), None);
    assert_eq!(unknown.name, "(unknown)");
    assert_eq!(unknown.address, "BB");
    assert_eq!(
        choose_name(Some("own".to_owned()), Some("adv".to_owned())),
        Some("own".to_owned())
    );
}

#[test]
fn characteristics_and_descriptors_are_found_by_their_uuids() {
    let keys = [key("a"), key("b")];
    assert_eq!(find_characteristic(&keys, &key("b")), Ok(1));
    assert_eq!(
        find_characteristic(&keys, &key("c")),
        Err("找不到 Characteristic s / c".to_owned())
    );
    let descriptor = |characteristic: &str| DescriptorKey {
        service_uuid: "s".to_owned(),
        characteristic_uuid: characteristic.to_owned(),
        descriptor_uuid: "d".to_owned(),
    };
    assert_eq!(find_descriptor_owner(&keys, &descriptor("a")), Ok(0));
    assert_eq!(
        find_descriptor_owner(&keys, &descriptor("x")),
        Err("找不到 Descriptor 所属 Characteristic s / x".to_owned())
    );
    assert_eq!(find_descriptor(&["e".to_owned(), "d".to_owned()], &descriptor("a")), Ok(1));
    assert_eq!(
        find_descriptor(&["e".to_owned()], &descriptor("a")),
        Err("找不到 Descriptor d".to_owned())
    );
    let mut properties = CharacteristicProperties::default();
    assert!(!can_subscribe(properties));
    properties.indicate = true;
    assert!(can_subscribe(properties));
}

#[test]
fn outcomes_are_expected_for_their_actions_only() {
    let idle = worker();
    let connected = || WorkerInput::Connected { established: established() };
    let failed = |reconnect| WorkerInput::ConnectFailed {
        reconnect,
        attempt: 0,
        error: "e".to_owned(),
    };
    let opened = |index| WorkerInput::AdapterOpened { index, error: None };
    assert!(!idle.expects(&connected()));
    assert!(!idle.expects(&failed(false)));
    assert!(idle.expects(&opened(adapters().len() - 1)));
    assert!(!idle.expects(&opened(adapters().len())));
    assert!(idle.expects(&WorkerInput::ReconnectDue));
    let busy = connected_worker();
    assert!(busy.expects(&connected()));
    assert!(busy.expects(&failed(true)));
    let found = |reconnect| WorkerInput::PeripheralFound {
        peripheral_id: "dev".to_owned(),
        reconnect,
        error: None,
    };
    assert!(busy.expects(&found(false)));
    assert!(!busy.expects(&found(true)));
}
