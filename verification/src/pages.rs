//! The state of each settings page and the decisions the pages make.

pub mod kernel;
pub mod performance;
pub mod services;
pub mod status;
pub mod storage;
