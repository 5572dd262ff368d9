//! Bluetooth Low Energy: the messages between user interface and worker, scan filters, and the
//! worker's decisions.

pub mod model;
pub mod scan;
pub mod worker;
