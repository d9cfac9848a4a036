//! The sampling-and-state core of a terminal system monitor: the cycle of
//! views, the process table kept sorted by CPU usage, and the bounded history
//! of network traffic, each updated by one tick of fresh telemetry.

pub mod gauge;
pub mod network;
pub mod process;
pub mod state;
pub mod tab;

pub use network::{InterfaceTraffic, HISTORY_CAPACITY};
pub use process::ProcessInfo;
pub use state::{App, Telemetry};
pub use tab::Tab;
