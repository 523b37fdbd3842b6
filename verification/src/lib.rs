//! Control-point client for the UPnP Internet Gateway Device protocol,
//! written without I/O: requests are built as plain values, the caller's
//! transport carries them, and replies are interpreted here.

pub mod address;
pub mod client;
pub mod decimal;
pub mod error;
pub mod gateway;
pub mod pattern;
pub mod protocol;
pub mod request;
pub mod response;
