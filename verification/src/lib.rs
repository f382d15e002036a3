//! Terminal dashboard core for monitoring satellite ground stations: the
//! station/job state-synchronization engine, the event-bus state transitions,
//! and the waterfall capture protocol, with machine-checked contracts.

pub mod bytes;
pub mod event;
pub mod job;
pub mod logger;
pub mod network;
pub mod rotator;
pub mod satnogs;
pub mod settings;
pub mod state;
pub mod station;
pub mod sysinfo;
pub mod theme;
pub mod ui;
pub mod timefmt;
pub mod vessel;
pub mod watcher;
pub mod waterfall;
