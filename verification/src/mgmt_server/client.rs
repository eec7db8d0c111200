//! What the management interface knows of a connected client.
use vstd::prelude::*;
use crate::auth_provider::UserPermissions;
use crate::protocol::encodings::EncodingType;
use crate::protocol::handshake::security::SecurityType;
use crate::protocol::pixel_format::PixelFormat;

verus! {

/// How far a client's connection has come.
#[derive(Debug, Clone, Copy, PartialEq, Eq, Structural)]
pub enum ClientStatus {
    Starting,
    Authorized,
    Initialized,
    Running,
    Dead,
}

impl ClientStatus {
    /// Whether the connection is still open.
    pub fn is_alive(&self) -> (b: bool)
        ensures
            b == (*self != ClientStatus::Dead),
    {
        match self {
            ClientStatus::Dead => false,
            _ => true,
        }
    }
}

impl Default for ClientStatus {
    /// A connection starts in `Starting`.
    fn default() -> (s: Self)
        ensures
            s == ClientStatus::Starting,
    {
        ClientStatus::Starting
    }
}

/// What is known of a client's connection as it goes on.
#[derive(Debug, Clone, Copy, PartialEq, Eq, Structural)]
pub struct ClientState {
    pub status: ClientStatus,
    pub auth_type: Option<SecurityType>,
    pub permissions: Option<UserPermissions>,
    pub encoding: Option<EncodingType>,
    pub pixel_format: Option<PixelFormat>,
}

impl ClientState {
    /// A connection that has just started: nothing known yet.
    pub open spec fn new_spec() -> ClientState {
        ClientState {
            status: ClientStatus::Starting,
            auth_type: None,
            permissions: None,
            encoding: None,
            pixel_format: None,
        }
    }

    /// A connection that has just started: nothing known yet.
    pub fn new() -> (s: ClientState)
        ensures
            s == ClientState::new_spec(),
    {
        ClientState {
            status: ClientStatus::Starting,
            auth_type: None,
            permissions: None,
            encoding: None,
            pixel_format: None,
        }
    }
}

/// The positions, in order, of the clients whose connection is still open.
pub fn alive_indices(statuses: &[ClientStatus]) -> (r: Vec<usize>)
    ensures
        forall|k: int| 0 <= k < r@.len() ==> r@[k] < statuses@.len() && statuses@[r@[k] as int]
            != ClientStatus::Dead,
        forall|i: int|
            0 <= i < statuses@.len() && statuses@[i] != ClientStatus::Dead ==> r@.contains(
                i as usize,
            ),
        forall|a: int, b: int| 0 <= a < b < r@.len() ==> r@[a] < r@[b],
{
    let mut r: Vec<usize> = Vec::new();
    let mut i: usize = 0;
    while i < statuses.len()
        invariant
            i <= statuses@.len(),
            forall|k: int| 0 <= k < r@.len() ==> r@[k] < i && statuses@[r@[k] as int]
                != ClientStatus::Dead,
            forall|j: int|
                0 <= j < i && statuses@[j] != ClientStatus::Dead ==> r@.contains(j as usize),
            forall|a: int, b: int| 0 <= a < b < r@.len() ==> r@[a] < r@[b],
        decreases statuses.len() - i,
    {
        if statuses[i].is_alive() {
            let ghost before = r@;
            r.push(i);
            assert forall|j: int|
                0 <= j < i + 1 && statuses@[j] != ClientStatus::Dead implies r@.contains(
                j as usize,
            ) by {
                if j < i {
                    let k = choose|k: int| 0 <= k < before.len() && before[k] == j as usize;
                    assert(r@[k] == j as usize);
                } else {
                    assert(r@[r@.len() - 1] == j as usize);
                }
            }
        }
        i = i + 1;
    }
    r
}

} // verus!
