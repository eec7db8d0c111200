//! The management interface: which clients it lists.
pub mod client;

pub use crate::mgmt_server::client::{alive_indices, ClientState, ClientStatus};
