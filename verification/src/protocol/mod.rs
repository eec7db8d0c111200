//! The RFB protocol: messages, handshake and pixel formats.
pub mod client_msg;
pub mod encodings;
pub mod handshake;
pub mod pixel_format;
pub mod primitives;
pub mod pseudo_encodings;
pub mod server_msg;
