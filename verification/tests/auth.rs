use vnc_server::auth_provider::file_auth::{FileAuthProvider, User};
use vnc_server::auth_provider::none_provider::NoneAuthProvider;
use vnc_server::auth_provider::pam::{
    acct_mgmt_step, authenticate_step, group_permissions, PAMAuthProviderConfig, PamErrorCode,
    PamStep,
};
use vnc_server::auth_provider::windows_logon::{
    default_system, membership_permissions, split_login, to_wide,
};
use vnc_server::auth_provider::{AuthProvider, UserPermissions};
use vnc_server::protocol::handshake::security::SecurityResult;

fn perms(view: bool, control: bool) -> UserPermissions {
    UserPermissions { view, control }
}

#[test]
fn permission_builders() {
    assert_eq!(UserPermissions::full(), perms(true, true));
    assert_eq!(UserPermissions::empty(), perms(false, false));
    assert_eq!(UserPermissions::empty().set_view(true), perms(true, false));
    assert_eq!(UserPermissions::full().set_control(false), perms(true, false));
}

#[test]
fn none_provider_checks_login_and_password() {
    let p = NoneAuthProvider { login: Some("admin".to_string()), password: "password".to_string() };
    assert_eq!(
        p.verify_user("admin", "password"),
        Ok(SecurityResult::Authorized(perms(true, true)))
    );
    assert_eq!(
        p.verify_user("admin", "nope"),
        Ok(SecurityResult::Denied("Wrong password".to_string()))
    );
    assert_eq!(
        p.verify_user("root", "password"),
        Ok(SecurityResult::Denied("Wrong password".to_string()))
    );
    let no_login = NoneAuthProvider { login: None, password: "password".to_string() };
    assert_eq!(
        no_login.verify_user("", "password"),
        Ok(SecurityResult::Denied("Wrong password".to_string()))
    );
    let table = p.get_passwords_permissions().unwrap();
    assert_eq!(table.entries, vec![("password".to_string(), perms(true, true))]);
}

fn users() -> Vec<User> {
    vec![
        User::new(Some("ann".to_string()), "pw1".to_string(), perms(true, false)),
        User::new(None, "shared".to_string(), perms(true, false)),
        User::new(Some("bob".to_string()), "pw2".to_string(), perms(true, true)),
        User::new(Some("carl".to_string()), "shared".to_string(), perms(false, true)),
        User::new(Some("ann".to_string()), "pw1".to_string(), perms(false, false)),
    ]
}

#[test]
fn file_provider_verifies_first_matching_user() {
    let p = FileAuthProvider::new(&users());
    assert_eq!(p.users.len(), 5);
    assert_eq!(p.verify_user("ann", "pw1"), Ok(SecurityResult::Authorized(perms(true, false))));
    assert_eq!(p.verify_user("bob", "pw2"), Ok(SecurityResult::Authorized(perms(true, true))));
    assert_eq!(
        p.verify_user("bob", "pw1"),
        Ok(SecurityResult::Denied("Wrong password".to_string()))
    );
    assert_eq!(
        p.verify_user("", "shared"),
        Ok(SecurityResult::Denied("Wrong password".to_string()))
    );
}

#[test]
fn file_provider_password_table_keeps_last_user() {
    let p = FileAuthProvider::new(&users());
    let table = p.get_passwords_permissions().unwrap();
    let mut entries = table.entries.clone();
    entries.sort_by(|a, b| a.0.cmp(&b.0));
    assert_eq!(
        entries,
        vec![
            ("pw1".to_string(), perms(false, false)),
            ("pw2".to_string(), perms(true, true)),
            ("shared".to_string(), perms(false, true)),
        ]
    );
}

#[test]
fn pam_steps() {
    assert!(matches!(authenticate_step(None), PamStep::Continue));
    assert!(matches!(
        authenticate_step(Some(PamErrorCode::AuthErr)),
        PamStep::Reply(SecurityResult::Denied(m)) if m == "Wrong password"
    ));
    assert!(matches!(
        authenticate_step(Some(PamErrorCode::UserUnknown)),
        PamStep::Reply(SecurityResult::Denied(m)) if m == "Wrong password"
    ));
    assert!(matches!(
        authenticate_step(Some(PamErrorCode::AcctExpired)),
        PamStep::Fail(PamErrorCode::AcctExpired)
    ));
    assert!(matches!(acct_mgmt_step(None), PamStep::Continue));
    assert!(matches!(
        acct_mgmt_step(Some(PamErrorCode::PermDenied)),
        PamStep::Reply(SecurityResult::Denied(m)) if m == "Access denied"
    ));
    assert!(matches!(
        acct_mgmt_step(Some(PamErrorCode::AcctExpired)),
        PamStep::Reply(SecurityResult::Denied(m)) if m == "Account expired"
    ));
    assert!(matches!(
        acct_mgmt_step(Some(PamErrorCode::Other)),
        PamStep::Fail(PamErrorCode::Other)
    ));
}

#[test]
fn pam_group_permissions() {
    let config = PAMAuthProviderConfig {
        channel_size: 4,
        service: "login".to_string(),
        control_group_name: "vnc-control".to_string(),
        view_group_name: "vnc-view".to_string(),
    };
    let groups = vec!["users".to_string(), "vnc-view".to_string()];
    assert_eq!(group_permissions(&groups, &config), perms(true, false));
    let groups = vec!["vnc-control".to_string(), "vnc-view".to_string()];
    assert_eq!(group_permissions(&groups, &config), perms(true, true));
    assert_eq!(group_permissions(&[], &config), perms(false, false));
}

#[test]
fn windows_helpers() {
    assert_eq!(default_system(), ".".to_string());
    assert_eq!(to_wide("a€𝄞"), vec![0x61, 0x20ac, 0xd834, 0xdd1e, 0]);
    assert_eq!(to_wide(""), vec![0]);
    assert_eq!(
        split_login("DOMAIN\\user\\x"),
        (Some("DOMAIN".to_string()), "user\\x".to_string())
    );
    assert_eq!(split_login("user"), (None, "user".to_string()));
    assert_eq!(membership_permissions(true, false), perms(true, false));
    assert_eq!(membership_permissions(false, true), perms(false, true));
}
