//! Bluetooth Low Energy monitor: capture format, stream protocol analysis, replay timeline,
//! scan filters, sessions and the decisions of the connection worker.

pub mod ble;
pub mod capture;
pub mod codec;
pub mod i18n;
pub mod lists;
pub mod monitor;
pub mod naming;
pub mod numbers;
pub mod paths;
pub mod plotting;
pub mod plugin;
pub mod profile;
pub mod protocol;
pub mod protocol_export;
pub mod protocol_preset;
pub mod replay;
pub mod sorting;
pub mod text;
pub mod workspace;
