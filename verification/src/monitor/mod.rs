//! The state behind the window: sessions, panels, and what each event and each request of the
//! user does to them.

pub mod analyzer;
pub mod devices;
pub mod gatt;
pub mod log;
pub mod plot;
pub mod session;
pub mod state;
pub mod store;
pub mod texts;
pub mod tx;
