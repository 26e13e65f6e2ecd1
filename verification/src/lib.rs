//! Verified core of a Linux system tuner: the parsing of kernel, service and
//! storage reports, the catalogues of tunables and profiles, and the state of
//! each settings page.

pub mod text;
pub mod number;
pub mod backend;
pub mod pages;
pub mod app;
