//! Scan filters.

use bluetooth_monitor::ble::model::{
    AdapterInfo, CharacteristicProperties, DeviceInfo, ManufacturerDataEntry, ServiceDataEntry,
};
use bluetooth_monitor::ble::scan::{
    ble_uuid_matches, choose_uuid, parse_ble_uuid, parse_scan_services, scan_service_tokens,
    ScanFilter,
};
use uuid::Uuid;

fn device() -> DeviceInfo {
    DeviceInfo {
        id: "hci0/dev_AA_BB".to_owned(),
        name: "ESP32 Sensor".to_owned(),
        address: "AA:BB:CC:DD:EE:FF".to_owned(),
        address_type: None,
        rssi: Some(-60),
        tx_power: None,
        appearance: None,
        manufacturer_data: vec![ManufacturerDataEntry { company_id: 76, data: vec![1] }],
        service_data: vec![ServiceDataEntry {
            service_uuid: "0000feaa-0000-1000-8000-00805f9b34fb".to_owned(),
            data: vec![2],
        }],
        advertised_services: vec!["0000180d-0000-1000-8000-00805f9b34fb".to_owned()],
    }
}

fn filter(name: &str, services: &str, min_rssi: i16) -> ScanFilter {
    ScanFilter { name: name.to_owned(), services: services.to_owned(), min_rssi }
}

#[test]
fn short_ble_uuid_filter_matches_bluetooth_base_uuid() {
    assert!(ble_uuid_matches("0000180d-0000-1000-8000-00805f9b34fb", "180D"));
    assert!(ble_uuid_matches("12345678-0000-1000-8000-00805f9b34fb", "0x12345678"));
    assert!(!ble_uuid_matches("0000180f-0000-1000-8000-00805f9b34fb", "180D"));
}

#[test]
fn parses_short_and_full_scan_uuids() {
    let short = Uuid::from_u128(parse_ble_uuid("180D").unwrap());
    assert_eq!(short.to_string(), "0000180d-0000-1000-8000-00805f9b34fb");

    let full = Uuid::from_u128(parse_ble_uuid("0000180d-0000-1000-8000-00805f9b34fb").unwrap());
    assert_eq!(short, full);

    let short32 = Uuid::from_u128(parse_ble_uuid("12345678").unwrap());
    assert_eq!(short32.to_string(), "12345678-0000-1000-8000-00805f9b34fb");
}

#[test]
fn prefixes_and_spaces_are_dropped_from_short_uuids() {
    let expected = parse_ble_uuid("180d").unwrap();
    for text in [" 0x180D ", "0X180d", "0x0x0X180D", "0000180D"] {
        assert_eq!(parse_ble_uuid(text).unwrap(), expected, "{text}");
    }
    assert!(parse_ble_uuid("0X0x180D").is_err());
}

#[test]
fn unreadable_uuids_name_the_text_and_the_reason() {
    let reason = Uuid::parse_str("nonsense").unwrap_err().to_string();
    assert_eq!(
        parse_ble_uuid("nonsense").unwrap_err(),
        format!("无法解析 UUID nonsense: {reason}")
    );
    assert!(parse_ble_uuid("180G").is_err());
    assert_eq!(choose_uuid("180D", Err("unused".to_owned())), parse_ble_uuid("180D"));
    assert_eq!(choose_uuid("name", Ok(5)), Ok(5));
    assert_eq!(
        choose_uuid("name", Err("why".to_owned())),
        Err("无法解析 UUID name: why".to_owned())
    );
}

#[test]
fn scan_services_skip_blanks_and_stop_at_the_first_error() {
    let values = |items: &[&str]| -> Vec<String> { items.iter().map(|s| s.to_string()).collect() };
    assert_eq!(
        parse_scan_services(&values(&["180D", "  ", "180F"])).unwrap(),
        vec![parse_ble_uuid("180D").unwrap(), parse_ble_uuid("180F").unwrap()]
    );
    assert_eq!(parse_scan_services(&[]).unwrap(), Vec::<u128>::new());
    let error = parse_scan_services(&values(&["180D", " bad ", "worse"])).unwrap_err();
    assert!(error.starts_with("无法解析 UUID bad: "), "{error}");
}

#[test]
fn filter_texts_are_split_into_tokens() {
    assert_eq!(scan_service_tokens(" 180D, 180F;\t12345678\n"), vec!["180D", "180F", "12345678"]);
    assert_eq!(scan_service_tokens(" ,; "), Vec::<String>::new());
    assert_eq!(scan_service_tokens("a"), vec!["a"]);
}

#[test]
fn uuids_are_compared_without_case_and_hyphens() {
    assert!(ble_uuid_matches("ABCD-EF", "abcdef"));
    assert!(ble_uuid_matches("0xÉ", "é"));
    assert!(!ble_uuid_matches("abc", "abd"));
    assert!(!ble_uuid_matches("180d", "180d"));
}

#[test]
fn devices_are_filtered_by_name_address_and_id() {
    let device = device();
    for name in ["", "  ", "esp32", "SENSOR", "bb:cc", "HCI0/DEV"] {
        assert!(filter(name, "", -127).device_matches_scan_filter(&device), "{name}");
    }
    assert!(!filter("other", "", -127).device_matches_scan_filter(&device));
}

#[test]
fn devices_are_filtered_by_signal() {
    let mut device = device();
    assert!(filter("", "", -60).device_matches_scan_filter(&device));
    assert!(!filter("", "", -59).device_matches_scan_filter(&device));
    device.rssi = None;
    assert!(filter("", "", -127).device_matches_scan_filter(&device));
    assert!(!filter("", "", -126).device_matches_scan_filter(&device));
}

#[test]
fn devices_are_filtered_by_service() {
    let device = device();
    assert!(filter("", "180D", -127).device_matches_scan_filter(&device));
    assert!(filter("", "0xFEAA", -127).device_matches_scan_filter(&device));
    assert!(filter("", "180F, 180d", -127).device_matches_scan_filter(&device));
    assert!(!filter("", "180F", -127).device_matches_scan_filter(&device));
    assert!(!filter("esp", "180F", -127).device_matches_scan_filter(&device));
}

#[test]
fn adapters_and_properties_have_labels() {
    let mut adapter = AdapterInfo {
        index: 0,
        name: "hci0".to_owned(),
        address: Some("AA".to_owned()),
        state: "Powered On".to_owned(),
    };
    assert_eq!(adapter.display_name(), "hci0 (AA)");
    adapter.address = None;
    assert_eq!(adapter.display_name(), "hci0");

    let mut properties = CharacteristicProperties::default();
    assert_eq!(properties.labels(), "-");
    properties.read = true;
    properties.notify = true;
    assert_eq!(properties.labels(), "R N");
    properties.write = true;
    properties.write_without_response = true;
    properties.indicate = true;
    assert_eq!(properties.labels(), "R W WNR N I");
}
