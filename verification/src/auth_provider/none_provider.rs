//! A single password (and optionally a login) set in the configuration.
use vstd::prelude::*;
use crate::auth_provider::{AuthError, AuthProvider, PasswordTable, UserPermissions};
use crate::protocol::handshake::security::SecurityResult;
use crate::text::str_eq;

verus! {

/// Accepts one password, with every permission; for a user name and password
/// check the login must be set too.
pub struct NoneAuthProvider {
    pub login: Option<String>,
    pub password: String,
}

impl NoneAuthProvider {
    /// Whether `login` with `password` is accepted: the login is set and equal
    /// to `login`, and the password is equal to `password`.
    pub open spec fn accepts(self, login: Seq<char>, password: Seq<char>) -> bool {
        &&& self.login matches Some(l) && l@ == login
        &&& self.password@ == password
    }
}

impl AuthProvider for NoneAuthProvider {
    /// The one password, with every permission.
    fn get_passwords_permissions(&self) -> (r: Result<PasswordTable, AuthError>)
        ensures
            r matches Ok(t) && t.entries@.len() == 1 && t.entries@[0].0@ == self.password@
                && t.entries@[0].1 == (UserPermissions { view: true, control: true }),
    {
        let mut entries: Vec<(String, UserPermissions)> = Vec::new();
        entries.push((self.password.clone(), UserPermissions::full()));
        Ok(PasswordTable { entries })
    }

    /// Every permission when the login and password match, else a denial.
    fn verify_user(&self, login: &str, password: &str) -> (r: Result<SecurityResult, AuthError>)
        ensures
            if self.accepts(login@, password@) {
                r == Ok::<SecurityResult, AuthError>(
                    SecurityResult::Authorized(UserPermissions { view: true, control: true }),
                )
            } else {
                r matches Ok(SecurityResult::Denied(msg)) && msg@ == "Wrong password"@
            },
    {
        let login_ok = match &self.login {
            Some(own_login) => str_eq(own_login.as_str(), login),
            None => false,
        };
        if login_ok && str_eq(password, self.password.as_str()) {
            Ok(SecurityResult::Authorized(UserPermissions::full()))
        } else {
            Ok(SecurityResult::Denied(String::from_str("Wrong password")))
        }
    }
}

} // verus!
