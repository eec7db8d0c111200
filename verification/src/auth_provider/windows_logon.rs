//! Windows accounts: the login may name a domain, and permissions come from
//! the account's group memberships.
use vstd::prelude::*;
use crate::auth_provider::UserPermissions;

verus! {

/// How the Windows provider is set up: the system whose groups are asked, and
/// the groups whose members may control or view.
pub struct WinLogonAuthProviderConfig {
    pub target_system: String,
    pub control_group_name: String,
    pub view_group_name: String,
}

/// The Windows provider.
pub struct WinLogonAuthProvider(pub WinLogonAuthProviderConfig);

/// The system asked when none is set: the local one.
pub fn default_system() -> (s: String)
    ensures
        s@ == "."@,
{
    String::from_str(".")
}

/// The UTF-16 code units of one character.
pub open spec fn utf16_units(c: char) -> Seq<u16> {
    let v = c as u32;
    if v < 0x10000 {
        seq![v as u16]
    } else {
        let w = (v - 0x10000) as u32;
        seq![(0xD800 + (w >> 10u32)) as u16, (0xDC00 + (w & 0x3FFu32)) as u16]
    }
}

/// The UTF-16 encoding of `chars`.
pub open spec fn encode_utf16(chars: Seq<char>) -> Seq<u16>
    decreases chars.len(),
{
    if chars.len() == 0 {
        seq![]
    } else {
        encode_utf16(chars.drop_last()) + utf16_units(chars.last())
    }
}

/// `s` in UTF-16, ended by a zero unit, as Windows functions take strings.
pub fn to_wide(s: &str) -> (w: Vec<u16>)
    ensures
        w@ == encode_utf16(s@).push(0u16),
{
    let n = s.unicode_len();
    let mut out: Vec<u16> = Vec::new();
    let mut i: usize = 0;
    while i < n
        invariant
            i <= n,
            n == s@.len(),
            out@ == encode_utf16(s@.take(i as int)),
        decreases n - i,
    {
        let c = s.get_char(i);
        let v = c as u32;
        proof {
            vstd::utf8::char_is_scalar(c);
        }
        if v < 0x10000 {
            out.push(v as u16);
        } else {
            assert(v <= 0x10FFFF);
            let w = v - 0x10000;
            assert((w >> 10u32) <= 0x3FF) by (bit_vector)
                requires
                    w <= 0xFFFFF,
            ;
            assert((w & 0x3FFu32) <= 0x3FF) by (bit_vector);
            out.push((0xD800 + (w >> 10u32)) as u16);
            out.push((0xDC00 + (w & 0x3FFu32)) as u16);
        }
        proof {
            assert(s@.take(i + 1).drop_last() =~= s@.take(i as int));
            assert(s@.take(i + 1).last() == c);
        }
        i = i + 1;
        assert(out@ =~= encode_utf16(s@.take(i as int)));
    }
    assert(s@.take(n as int) =~= s@);
    out.push(0u16);
    out
}

/// The first position of `c` in `s`, if any.
pub open spec fn first_index_of(s: Seq<char>, c: char, i: int) -> bool {
    0 <= i < s.len() && s[i] == c && forall|j: int| 0 <= j < i ==> s[j] != c
}

/// A login split at its first backslash into a domain and a user name;
/// without a backslash there is no domain.
pub fn split_login(login: &str) -> (r: (Option<String>, String))
    ensures
        match r.0 {
            Some(domain) => exists|i: int|
                first_index_of(login@, '\\', i) && domain@ == login@.take(i) && r.1@ == login@.skip(
                    i + 1,
                ),
            None => r.1@ == login@ && forall|j: int| 0 <= j < login@.len() ==> login@[j] != '\\',
        },
{
    let n = login.unicode_len();
    let mut i: usize = 0;
    while i < n
        invariant
            i <= n,
            n == login@.len(),
            forall|j: int| 0 <= j < i ==> login@[j] != '\\',
        decreases n - i,
    {
        if login.get_char(i) == '\\' {
            let domain = login.substring_char(0, i);
            let user = login.substring_char(i + 1, n);
            assert(first_index_of(login@, '\\', i as int));
            assert(login@.subrange(0, i as int) =~= login@.take(i as int));
            assert(login@.subrange(i + 1, n as int) =~= login@.skip(i + 1));
            return (Some(String::from_str(domain)), String::from_str(user));
        }
        i = i + 1;
    }
    (None, String::from_str(login))
}

/// The permissions of an account from its memberships: view for the view
/// group, control for the control group.
pub fn membership_permissions(view_member: bool, control_member: bool) -> (p: UserPermissions)
    ensures
        p == (UserPermissions { view: view_member, control: control_member }),
{
    let mut permissions = UserPermissions::empty();
    if view_member {
        permissions = permissions.set_view(true);
    }
    if control_member {
        permissions = permissions.set_control(true);
    }
    permissions
}

} // verus!
