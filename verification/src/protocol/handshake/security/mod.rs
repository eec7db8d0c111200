//! Security types offered to the client and the result of authentication.
pub mod des_block;
pub mod mslogonii;
pub mod vnc_authent;

use vstd::prelude::*;
use crate::auth_provider::UserPermissions;
use crate::protocol::handshake::{handshake_error_bytes, handshake_error_wire};
use crate::wire::{push_u32_be, u32_be_bytes};

verus! {

/// A way of authenticating.
#[derive(Debug, Clone, Copy, PartialEq, Eq, Structural)]
pub enum SecurityType {
    Invalid,
    NoAuthentication,
    VNCAuthentication,
    MSLogonII,
}

impl SecurityType {
    /// The byte of the type on the wire.
    pub open spec fn spec_byte(self) -> u8 {
        match self {
            SecurityType::Invalid => 0,
            SecurityType::NoAuthentication => 1,
            SecurityType::VNCAuthentication => 2,
            SecurityType::MSLogonII => 113,
        }
    }

    /// The type a byte stands for; unknown bytes are `Invalid`.
    pub open spec fn spec_from_byte(b: u8) -> SecurityType {
        if b == 1 {
            SecurityType::NoAuthentication
        } else if b == 2 {
            SecurityType::VNCAuthentication
        } else if b == 113 {
            SecurityType::MSLogonII
        } else {
            SecurityType::Invalid
        }
    }

    /// The byte of the type on the wire.
    pub fn to_byte(&self) -> (b: u8)
        ensures
            b == self.spec_byte(),
    {
        match self {
            SecurityType::Invalid => 0,
            SecurityType::NoAuthentication => 1,
            SecurityType::VNCAuthentication => 2,
            SecurityType::MSLogonII => 113,
        }
    }

    /// Reads a type from its byte.
    pub fn from_byte(b: u8) -> (t: SecurityType)
        ensures
            t == SecurityType::spec_from_byte(b),
    {
        if b == 1 {
            SecurityType::NoAuthentication
        } else if b == 2 {
            SecurityType::VNCAuthentication
        } else if b == 113 {
            SecurityType::MSLogonII
        } else {
            SecurityType::Invalid
        }
    }

    /// The outcome of the types that need no exchange with the client: an
    /// invalid type is denied, no authentication grants every permission; the others are
    /// settled by their own exchange (`None` here).
    pub fn immediate_result(&self) -> (r: Option<SecurityResult>)
        ensures
            match *self {
                SecurityType::Invalid => r matches Some(SecurityResult::Denied(msg)) && msg@
                    == "Invalid or unknown Authentication Type"@,
                SecurityType::NoAuthentication => r == Some(
                    SecurityResult::Authorized(UserPermissions { view: true, control: true }),
                ),
                _ => r is None,
            },
    {
        match self {
            SecurityType::Invalid => Some(
                SecurityResult::Denied(String::from_str("Invalid or unknown Authentication Type")),
            ),
            SecurityType::NoAuthentication => Some(SecurityResult::Authorized(UserPermissions::full())),
            _ => None,
        }
    }
}

/// The wire bytes of the security types are those RFB assigns (None 1, VNC
/// authentication 2, MS-Logon II 113), each valid type's byte reads back as
/// that type, and every other byte reads as `Invalid`.
pub proof fn lemma_security_type_bytes(t: SecurityType, b: u8)
    ensures
        SecurityType::NoAuthentication.spec_byte() == 1,
        SecurityType::VNCAuthentication.spec_byte() == 2,
        SecurityType::MSLogonII.spec_byte() == 113,
        t != SecurityType::Invalid ==> SecurityType::spec_from_byte(t.spec_byte()) == t,
        b != 1 && b != 2 && b != 113 ==> SecurityType::spec_from_byte(b) == SecurityType::Invalid,
        SecurityType::spec_from_byte(b) != SecurityType::Invalid ==> SecurityType::spec_from_byte(
            b,
        ).spec_byte() == b,
{
}

/// The bytes of each type of `types`, in order.
pub open spec fn security_types_bytes(types: Seq<SecurityType>) -> Seq<u8> {
    Seq::new(types.len(), |i: int| types[i].spec_byte())
}

/// The list of offered types on the wire: their number (truncated to a byte),
/// then their bytes.
pub fn security_types_to_bytes(types: &[SecurityType]) -> (out: Vec<u8>)
    ensures
        out@ == seq![types@.len() as u8] + security_types_bytes(types@),
{
    let mut out: Vec<u8> = Vec::new();
    out.push(types.len() as u8);
    let mut i: usize = 0;
    while i < types.len()
        invariant
            i <= types@.len(),
            out@ =~= seq![types@.len() as u8] + security_types_bytes(types@.take(i as int)),
        decreases types.len() - i,
    {
        out.push(types[i].to_byte());
        i = i + 1;
    }
    assert(types@.take(i as int) =~= types@);
    out
}

/// The outcome of authentication.
#[derive(Debug, Clone, PartialEq, Eq)]
pub enum SecurityResult {
    Denied(String),
    Authorized(UserPermissions),
}

impl SecurityResult {
    /// The status word: 1 when denied, 0 when authorized.
    pub open spec fn spec_value(self) -> u32 {
        match self {
            SecurityResult::Denied(..) => 1,
            SecurityResult::Authorized(..) => 0,
        }
    }

    /// The status word, then for a denial its reason.
    pub open spec fn wire_bytes(self) -> Seq<u8> {
        u32_be_bytes(self.spec_value()) + match self {
            SecurityResult::Denied(msg) => handshake_error_wire(msg@),
            SecurityResult::Authorized(..) => seq![],
        }
    }

    /// The status word: 1 when denied, 0 when authorized.
    pub fn get_value(&self) -> (v: u32)
        ensures
            v == self.spec_value(),
    {
        match self {
            SecurityResult::Denied(..) => 1,
            SecurityResult::Authorized(..) => 0,
        }
    }

    /// Whether access is denied.
    pub fn is_denied(&self) -> (b: bool)
        ensures
            b == (*self is Denied),
    {
        match self {
            SecurityResult::Denied(_) => true,
            SecurityResult::Authorized(_) => false,
        }
    }

    /// The permissions granted: none when denied.
    pub fn get_permissions(&self) -> (p: UserPermissions)
        ensures
            p == match *self {
                SecurityResult::Denied(_) => UserPermissions { view: false, control: false },
                SecurityResult::Authorized(perms) => perms,
            },
    {
        match self {
            SecurityResult::Denied(_) => UserPermissions::empty(),
            SecurityResult::Authorized(user_permissions) => *user_permissions,
        }
    }

    /// The denial that reports a failure of the authentication exchange,
    /// described by `reason`.
    pub fn denied_by_error(reason: &str) -> (r: SecurityResult)
        ensures
            r matches SecurityResult::Denied(msg) && msg@ == "Authentication Denied : "@ + reason@,
    {
        let prefix = String::from_str("Authentication Denied : ");
        SecurityResult::Denied(prefix.concat(reason))
    }

    /// The wire form of the outcome.
    pub fn to_bytes(&self) -> (out: Vec<u8>)
        ensures
            out@ == self.wire_bytes(),
    {
        let mut out: Vec<u8> = Vec::new();
        push_u32_be(&mut out, self.get_value());
        match self {
            SecurityResult::Denied(msg) => {
                let reason = handshake_error_bytes(msg.as_str());
                crate::wire::push_bytes(&mut out, reason.as_slice());
            },
            SecurityResult::Authorized(_) => {},
        }
        assert(out@ =~= self.wire_bytes());
        out
    }
}

} // verus!
