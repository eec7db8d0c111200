//! A VNC (RFB protocol) server: the protocol codecs, pixel format conversion,
//! authentication and connection logic, with their contracts.
pub mod auth_provider;
pub mod capture;
pub mod config;
pub mod mgmt_server;
pub mod protocol;
pub mod server;
pub mod text;
pub mod wire;
