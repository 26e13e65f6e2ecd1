//! What the tuner reads from and hands to the system, as plain values.

pub mod command;
pub mod sysctl;
pub mod systemd;
pub mod storage;
pub mod performance;
