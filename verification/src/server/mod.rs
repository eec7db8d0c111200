//! The server: its configuration and the decisions of each connection.
pub mod session;

use vstd::prelude::*;
use crate::config::Config;
use crate::protocol::handshake::security::SecurityType;
use crate::server::session::Session;

verus! {

/// The server, as configured.
pub struct VNCServer {
    pub config: Config,
}

impl Default for VNCServer {
    /// A server with the default configuration.
    fn default() -> (s: Self)
        ensures
            s.config.is_default(),
    {
        VNCServer { config: Config::default() }
    }
}

/// A copy of a list of security types.
fn copy_security_types(types: &[SecurityType]) -> (r: Vec<SecurityType>)
    ensures
        r@ == types@,
{
    let mut r: Vec<SecurityType> = Vec::new();
    let mut i: usize = 0;
    while i < types.len()
        invariant
            i <= types@.len(),
            r@ == types@.take(i as int),
        decreases types.len() - i,
    {
        r.push(types[i]);
        i = i + 1;
        assert(r@ =~= types@.take(i as int));
    }
    assert(types@.take(i as int) =~= types@);
    r
}

impl VNCServer {
    /// The session of a newly accepted client on a `width` x `height` screen
    /// (each truncated to 16 bits): the configured pixel format and security
    /// types.
    pub fn new_session(&self, width: usize, height: usize) -> (s: Session)
        ensures
            s.phase == crate::server::session::HandshakePhase::SendVersion,
            s.width == width as u16,
            s.height == height as u16,
            s.pixel_format == self.config.server.pixel_format,
            s.available_security@ == self.config.server.auth_protocols@,
            s.permissions == (crate::auth_provider::UserPermissions { view: false, control: false }),
            s.target_pixel_format is None,
            s.prev_mouse_buttons.0 == 0,
            s.info == crate::mgmt_server::client::ClientState::new_spec(),
    {
        Session::new(
            width as u16,
            height as u16,
            self.config.server.pixel_format,
            copy_security_types(self.config.server.auth_protocols.as_slice()),
        )
    }
}

} // verus!
