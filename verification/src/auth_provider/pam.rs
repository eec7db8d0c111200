//! Users of the system, checked through PAM; permissions come from the
//! user's groups.
use vstd::prelude::*;
use crate::auth_provider::UserPermissions;
use crate::protocol::handshake::security::SecurityResult;
use crate::text::str_eq;

verus! {

/// How the PAM provider is set up: the PAM service, and the groups whose
/// members may control or view.
pub struct PAMAuthProviderConfig {
    pub channel_size: usize,
    pub service: String,
    pub control_group_name: String,
    pub view_group_name: String,
}

/// The PAM error codes that the provider tells apart.
#[derive(Debug, Clone, Copy, PartialEq, Eq, Structural)]
pub enum PamErrorCode {
    AuthErr,
    UserUnknown,
    PermDenied,
    AcctExpired,
    /// Any other code.
    Other,
}

/// What follows a PAM step.
pub enum PamStep {
    /// The step succeeded: go on to the next one.
    Continue,
    /// The request is answered with this outcome.
    Reply(SecurityResult),
    /// PAM failed in a way that stops the provider.
    Fail(PamErrorCode),
}

/// What follows authentication that ended with `error` (`None` for success):
/// a wrong password or an unknown user is denied as a wrong password.
pub fn authenticate_step(error: Option<PamErrorCode>) -> (s: PamStep)
    ensures
        match error {
            None => s is Continue,
            Some(PamErrorCode::AuthErr) | Some(PamErrorCode::UserUnknown) => s matches PamStep::Reply(
                SecurityResult::Denied(msg),
            ) && msg@ == "Wrong password"@,
            Some(code) => s == PamStep::Fail(code),
        },
{
    match error {
        None => PamStep::Continue,
        Some(PamErrorCode::AuthErr) | Some(PamErrorCode::UserUnknown) => PamStep::Reply(
            SecurityResult::Denied(String::from_str("Wrong password")),
        ),
        Some(code) => PamStep::Fail(code),
    }
}

/// What follows the account check that ended with `error` (`None` for
/// success): a refused account is denied access, an expired one is denied as
/// expired.
pub fn acct_mgmt_step(error: Option<PamErrorCode>) -> (s: PamStep)
    ensures
        match error {
            None => s is Continue,
            Some(PamErrorCode::AuthErr) | Some(PamErrorCode::PermDenied) => s matches PamStep::Reply(
                SecurityResult::Denied(msg),
            ) && msg@ == "Access denied"@,
            Some(PamErrorCode::AcctExpired) => s matches PamStep::Reply(SecurityResult::Denied(msg))
                && msg@ == "Account expired"@,
            Some(code) => s == PamStep::Fail(code),
        },
{
    match error {
        None => PamStep::Continue,
        Some(PamErrorCode::AuthErr) | Some(PamErrorCode::PermDenied) => PamStep::Reply(
            SecurityResult::Denied(String::from_str("Access denied")),
        ),
        Some(PamErrorCode::AcctExpired) => PamStep::Reply(
            SecurityResult::Denied(String::from_str("Account expired")),
        ),
        Some(code) => PamStep::Fail(code),
    }
}

/// Some group of `groups` is named `name`.
pub open spec fn has_group(groups: Seq<String>, name: Seq<char>) -> bool {
    exists|i: int| 0 <= i < groups.len() && groups[i]@ == name
}

/// The permissions of a user in `groups`: control for members of the control
/// group, view for members of the view group.
pub fn group_permissions(groups: &[String], config: &PAMAuthProviderConfig) -> (p: UserPermissions)
    ensures
        p.control == has_group(groups@, config.control_group_name@),
        p.view == has_group(groups@, config.view_group_name@),
{
    let mut permissions = UserPermissions::empty();
    let mut i: usize = 0;
    while i < groups.len()
        invariant
            i <= groups@.len(),
            permissions.control == has_group(groups@.take(i as int), config.control_group_name@),
            permissions.view == has_group(groups@.take(i as int), config.view_group_name@),
        decreases groups.len() - i,
    {
        let ghost before = groups@.take(i as int);
        if str_eq(groups[i].as_str(), config.control_group_name.as_str()) {
            permissions = permissions.set_control(true);
        }
        if str_eq(groups[i].as_str(), config.view_group_name.as_str()) {
            permissions = permissions.set_view(true);
        }
        proof {
            let after = groups@.take(i + 1);
            assert(after =~= before.push(groups@[i as int]));
            assert forall|name: Seq<char>| has_group(after, name) == (has_group(before, name) || groups@[i as int]@ == name) by {
                if has_group(after, name) && !(groups@[i as int]@ == name) {
                    let k = choose|k: int| 0 <= k < after.len() && after[k]@ == name;
                    assert(before[k] == after[k]);
                }
                if has_group(before, name) {
                    let k = choose|k: int| 0 <= k < before.len() && before[k]@ == name;
                    assert(after[k] == before[k]);
                }
                if groups@[i as int]@ == name {
                    assert(after[i as int] == groups@[i as int]);
                }
            }
        }
        i = i + 1;
    }
    assert(groups@.take(i as int) =~= groups@);
    permissions
}

} // verus!
