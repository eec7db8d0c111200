//! Who may connect, and with which permissions.
pub mod file_auth;
pub mod none_provider;
pub mod pam;
pub mod windows_logon;

use vstd::prelude::*;
use crate::protocol::handshake::security::SecurityResult;

verus! {

/// What an authenticated user may do.
#[derive(Debug, Clone, Copy, PartialEq, Eq, Structural)]
pub struct UserPermissions {
    pub view: bool,
    pub control: bool,
}

impl UserPermissions {
    /// Every permission.
    pub fn full() -> (p: Self)
        ensures
            p == (UserPermissions { view: true, control: true }),
    {
        UserPermissions { view: true, control: true }
    }

    /// No permission.
    pub fn empty() -> (p: Self)
        ensures
            p == (UserPermissions { view: false, control: false }),
    {
        UserPermissions { view: false, control: false }
    }

    /// The same permissions with viewing set to `value`.
    pub fn set_view(self, value: bool) -> (p: Self)
        ensures
            p == (UserPermissions { view: value, control: self.control }),
    {
        let mut p = self;
        p.view = value;
        p
    }

    /// The same permissions with control set to `value`.
    pub fn set_control(self, value: bool) -> (p: Self)
        ensures
            p == (UserPermissions { view: self.view, control: value }),
    {
        let mut p = self;
        p.control = value;
        p
    }
}

/// Why a provider could not answer.
#[derive(Debug, Clone, Copy, PartialEq, Eq, Structural)]
pub enum AuthError {
    /// The provider cannot list passwords.
    Unsupported,
    /// The system the provider asks failed.
    Backend,
}

/// No password appears twice in `entries`.
pub open spec fn distinct_passwords(entries: Seq<(String, UserPermissions)>) -> bool {
    forall|i: int, j: int| 0 <= i < j < entries.len() ==> entries[i].0@ != entries[j].0@
}

/// Passwords with the permissions they grant; no password appears twice.
pub struct PasswordTable {
    pub entries: Vec<(String, UserPermissions)>,
}

impl PasswordTable {
    /// The passwords and their permissions as a map.
    pub open spec fn spec_map(self) -> Map<Seq<char>, UserPermissions> {
        Map::new(
            |p: Seq<char>| exists|i: int| 0 <= i < self.entries@.len() && self.entries@[i].0@ == p,
            |p: Seq<char>| {
                let i = choose|i: int| 0 <= i < self.entries@.len() && self.entries@[i].0@ == p;
                self.entries@[i].1
            },
        )
    }

    /// No password appears twice.
    pub open spec fn well_formed(self) -> bool {
        distinct_passwords(self.entries@)
    }
}

/// A source of users: lists passwords, or checks a login and password.
pub trait AuthProvider {
    /// The passwords accepted (for password-only authentication) and the
    /// permissions each grants.
    fn get_passwords_permissions(&self) -> (r: Result<PasswordTable, AuthError>)
        ensures
            r matches Ok(t) ==> t.well_formed(),
    ;

    /// Whether `login` with `password` is let in, and with which permissions.
    fn verify_user(&self, login: &str, password: &str) -> Result<SecurityResult, AuthError>;
}

/// In a table where no password appears twice, the entry holding a password
/// gives the permissions of that password.
pub proof fn lemma_table_entry(t: PasswordTable, k: int)
    requires
        t.well_formed(),
        0 <= k < t.entries@.len(),
    ensures
        t.spec_map().contains_key(t.entries@[k].0@),
        t.spec_map()[t.entries@[k].0@] == t.entries@[k].1,
{
    let p = t.entries@[k].0@;
    assert(t.spec_map().dom().contains(p));
    let i = choose|i: int| 0 <= i < t.entries@.len() && t.entries@[i].0@ == p;
    if i != k {
        if i < k {
            assert(t.entries@[i].0@ != t.entries@[k].0@);
        } else {
            assert(t.entries@[k].0@ != t.entries@[i].0@);
        }
    }
}

} // verus!
