//! The desktop engine: its protocol, its queue of transfers, the framing of
//! its local connection and the words of its tray.

pub mod engine;
pub mod ipc;
pub mod laws;
pub mod protocol;
pub mod tray;
