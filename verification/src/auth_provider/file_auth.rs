//! Users listed in a file: each with an optional login, a password and
//! permissions.
use vstd::prelude::*;
use crate::auth_provider::{distinct_passwords, AuthError, AuthProvider, PasswordTable, UserPermissions};
use crate::protocol::handshake::security::SecurityResult;
use crate::text::str_eq;

verus! {

/// A user of the file.
pub struct User {
    pub login: Option<String>,
    pub password: String,
    pub permission: UserPermissions,
}

impl User {
    /// A user with these login, password and permissions.
    pub fn new(login: Option<String>, password: String, permission: UserPermissions) -> (u: User)
        ensures
            u.login == login,
            u.password == password,
            u.permission == permission,
    {
        User { login, password, permission }
    }

    /// A copy of the user.
    pub fn duplicate(&self) -> (u: User)
        ensures
            u == *self,
    {
        let login = match &self.login {
            Some(l) => Some(l.clone()),
            None => None,
        };
        User { login, password: self.password.clone(), permission: self.permission }
    }

    /// Whether the user has login `login` and password `password`.
    pub open spec fn matches(self, login: Seq<char>, password: Seq<char>) -> bool {
        &&& self.login matches Some(l) && l@ == login
        &&& self.password@ == password
    }
}

/// Users read from a file.
pub struct FileAuthProvider {
    pub users: Vec<User>,
}

/// `users` holds a user with password `p` at `i`, and none after it.
pub open spec fn last_with_password(users: Seq<User>, p: Seq<char>, i: int) -> bool {
    &&& 0 <= i < users.len()
    &&& users[i].password@ == p
    &&& forall|j: int| i < j < users.len() ==> users[j].password@ != p
}

/// Each password of `users` with the permissions of the last user holding it.
pub open spec fn password_map(users: Seq<User>) -> Map<Seq<char>, UserPermissions> {
    Map::new(
        |p: Seq<char>| exists|i: int| 0 <= i < users.len() && users[i].password@ == p,
        |p: Seq<char>| {
            let i = choose|i: int| last_with_password(users, p, i);
            users[i].permission
        },
    )
}

/// `users` holds a user matching `login` and `password` at `i`, and none before it.
pub open spec fn first_match(users: Seq<User>, login: Seq<char>, password: Seq<char>, i: int) -> bool {
    &&& 0 <= i < users.len()
    &&& users[i].matches(login, password)
    &&& forall|j: int| 0 <= j < i ==> !users[j].matches(login, password)
}

impl FileAuthProvider {
    /// A provider holding copies of `users`.
    pub fn new(users: &[User]) -> (p: FileAuthProvider)
        ensures
            p.users@ == users@,
    {
        let mut v: Vec<User> = Vec::new();
        let mut i: usize = 0;
        while i < users.len()
            invariant
                i <= users@.len(),
                v@ == users@.take(i as int),
            decreases users.len() - i,
        {
            v.push(users[i].duplicate());
            i = i + 1;
            assert(v@ =~= users@.take(i as int));
        }
        assert(users@.take(i as int) =~= users@);
        FileAuthProvider { users: v }
    }
}

/// Which user a password belongs to in the end: the last one holding it.
proof fn lemma_last_unique(users: Seq<User>, p: Seq<char>, i: int, k: int)
    requires
        last_with_password(users, p, i),
        last_with_password(users, p, k),
    ensures
        i == k,
{
}

/// The entry holds a password of `users[from..]` with the permissions of the
/// last user holding it.
pub open spec fn entry_of_last(users: Seq<User>, from: int, e: (String, UserPermissions)) -> bool {
    exists|u: int| from <= u && last_with_password(users, e.0@, u) && e.1 == users[u].permission
}

/// Some entry holds password `p`.
pub open spec fn has_password(entries: Seq<(String, UserPermissions)>, p: Seq<char>) -> bool {
    exists|k: int| 0 <= k < entries.len() && entries[k].0@ == p
}

/// Whether some entry holds `password`.
fn find_password(entries: &Vec<(String, UserPermissions)>, password: &str) -> (found: bool)
    ensures
        found == has_password(entries@, password@),
{
    let mut k: usize = 0;
    while k < entries.len()
        invariant
            k <= entries@.len(),
            forall|m: int| 0 <= m < k ==> entries@[m].0@ != password@,
        decreases entries.len() - k,
    {
        if str_eq(entries[k].0.as_str(), password) {
            return true;
        }
        k = k + 1;
    }
    false
}

/// Adding the entry of user `i` (whose password no later user holds) keeps
/// the table's invariant for the users from `i` on.
proof fn lemma_push_entry(users: Seq<User>, i: int, before: Seq<(String, UserPermissions)>, after: Seq<(String, UserPermissions)>)
    requires
        0 <= i < users.len(),
        after == before.push(after.last()),
        after.last().0@ == users[i].password@,
        after.last().1 == users[i].permission,
        !has_password(before, users[i].password@),
        forall|k: int| #![trigger before[k]] 0 <= k < before.len() ==> entry_of_last(users, i + 1, before[k]),
        forall|u: int| #![trigger users[u]] i + 1 <= u < users.len() ==> has_password(before, users[u].password@),
        distinct_passwords(before),
    ensures
        forall|k: int| #![trigger after[k]] 0 <= k < after.len() ==> entry_of_last(users, i, after[k]),
        forall|u: int| #![trigger users[u]] i <= u < users.len() ==> has_password(after, users[u].password@),
        distinct_passwords(after),
{
    assert forall|j: int| i < j < users.len() implies users[j].password@ != users[i].password@ by {
        assert(users[j] == users[j]);
    }
    assert(last_with_password(users, users[i].password@, i));
    assert forall|k: int| #![trigger after[k]] 0 <= k < after.len() implies entry_of_last(users, i, after[k]) by {
        if k < before.len() {
            assert(after[k] == before[k]);
            let u = choose|u: int| i + 1 <= u && last_with_password(users, before[k].0@, u) && before[k].1 == users[u].permission;
        } else {
            assert(after[k] == after.last());
        }
    }
    assert forall|u: int| #![trigger users[u]] i <= u < users.len() implies has_password(after, users[u].password@) by {
        if u == i {
            assert(after[before.len() as int].0@ == users[u].password@);
        } else {
            assert(has_password(before, users[u].password@));
            let kk = choose|kk: int| 0 <= kk < before.len() && before[kk].0@ == users[u].password@;
            assert(after[kk] == before[kk]);
        }
    }
    assert forall|a: int, b: int| 0 <= a < b < after.len() implies #[trigger] after[a].0@ != #[trigger] after[b].0@ by {
        if b == before.len() {
            assert(after[a] == before[a]);
        } else {
            assert(after[a] == before[a]);
            assert(after[b] == before[b]);
        }
    }
}

/// Skipping user `i`, whose password an entry already holds, keeps the
/// table's invariant for the users from `i` on.
proof fn lemma_skip_entry(users: Seq<User>, i: int, entries: Seq<(String, UserPermissions)>)
    requires
        0 <= i < users.len(),
        has_password(entries, users[i].password@),
        forall|k: int| #![trigger entries[k]] 0 <= k < entries.len() ==> entry_of_last(users, i + 1, entries[k]),
        forall|u: int| #![trigger users[u]] i + 1 <= u < users.len() ==> has_password(entries, users[u].password@),
    ensures
        forall|k: int| #![trigger entries[k]] 0 <= k < entries.len() ==> entry_of_last(users, i, entries[k]),
        forall|u: int| #![trigger users[u]] i <= u < users.len() ==> has_password(entries, users[u].password@),
{
    assert forall|k: int| #![trigger entries[k]] 0 <= k < entries.len() implies entry_of_last(users, i, entries[k]) by {
        let u = choose|u: int| i + 1 <= u && last_with_password(users, entries[k].0@, u) && entries[k].1 == users[u].permission;
    }
}

/// A table built with the invariant for all users holds exactly their
/// passwords, each with the permissions of the last user holding it.
proof fn lemma_table_is_password_map(users: Seq<User>, table: PasswordTable)
    requires
        table.well_formed(),
        forall|k: int| #![trigger table.entries@[k]] 0 <= k < table.entries@.len() ==> entry_of_last(users, 0, table.entries@[k]),
        forall|u: int| #![trigger users[u]] 0 <= u < users.len() ==> has_password(table.entries@, users[u].password@),
    ensures
        table.spec_map() == password_map(users),
{
    let es = table.entries@;
    assert forall|p: Seq<char>| #[trigger] table.spec_map().dom().contains(p) <==> password_map(users).dom().contains(p) by {
        if password_map(users).dom().contains(p) {
            let u = choose|u: int| 0 <= u < users.len() && users[u].password@ == p;
            assert(has_password(es, users[u].password@));
        }
        if table.spec_map().dom().contains(p) {
            let kk = choose|kk: int| 0 <= kk < es.len() && es[kk].0@ == p;
            assert(entry_of_last(users, 0, es[kk]));
            let u = choose|u: int| 0 <= u && last_with_password(users, es[kk].0@, u) && es[kk].1 == users[u].permission;
            assert(password_map(users).dom().contains(p));
        }
    }
    assert forall|p: Seq<char>| #[trigger] table.spec_map().dom().contains(p) implies table.spec_map()[p] == password_map(users)[p] by {
        let kk = choose|kk: int| 0 <= kk < es.len() && es[kk].0@ == p;
        crate::auth_provider::lemma_table_entry(table, kk);
        assert(entry_of_last(users, 0, es[kk]));
        let u = choose|u: int| 0 <= u && last_with_password(users, es[kk].0@, u) && es[kk].1 == users[u].permission;
        let w = choose|w: int| last_with_password(users, p, w);
        lemma_last_unique(users, p, u, w);
    }
    assert(table.spec_map() =~= password_map(users));
}

impl AuthProvider for FileAuthProvider {
    /// Each password of the file with the permissions of the last user holding it.
    fn get_passwords_permissions(&self) -> (r: Result<PasswordTable, AuthError>)
        ensures
            r matches Ok(t) && t.spec_map() == password_map(self.users@),
    {
        let ghost users = self.users@;
        let mut entries: Vec<(String, UserPermissions)> = Vec::new();
        let mut i: usize = self.users.len();
        while i > 0
            invariant
                i <= users.len(),
                users == self.users@,
                distinct_passwords(entries@),
                forall|k: int| #![trigger entries@[k]] 0 <= k < entries@.len() ==> entry_of_last(users, i as int, entries@[k]),
                forall|u: int| #![trigger users[u]] i <= u < users.len() ==> has_password(entries@, users[u].password@),
            decreases i,
        {
            i = i - 1;
            let user = &self.users[i];
            if !find_password(&entries, user.password.as_str()) {
                let ghost before = entries@;
                entries.push((user.password.clone(), user.permission));
                proof {
                    lemma_push_entry(users, i as int, before, entries@);
                }
            } else {
                proof {
                    lemma_skip_entry(users, i as int, entries@);
                }
            }
        }
        let table = PasswordTable { entries };
        proof {
            lemma_table_is_password_map(users, table);
        }
        Ok(table)
    }

    /// The permissions of the first user whose login and password match;
    /// a denial when none does.
    fn verify_user(&self, login: &str, password: &str) -> (r: Result<SecurityResult, AuthError>)
        ensures
            match r {
                Ok(SecurityResult::Authorized(p)) => exists|i: int|
                    first_match(self.users@, login@, password@, i) && p == self.users@[i].permission,
                Ok(SecurityResult::Denied(msg)) => msg@ == "Wrong password"@ && forall|i: int|
                    0 <= i < self.users@.len() ==> !self.users@[i].matches(login@, password@),
                Err(_) => false,
            },
    {
        let mut i: usize = 0;
        while i < self.users.len()
            invariant
                i <= self.users@.len(),
                forall|j: int| 0 <= j < i ==> !self.users@[j].matches(login@, password@),
            decreases self.users.len() - i,
        {
            let user = &self.users[i];
            let login_ok = match &user.login {
                Some(l) => str_eq(l.as_str(), login),
                None => false,
            };
            if login_ok && str_eq(user.password.as_str(), password) {
                assert(first_match(self.users@, login@, password@, i as int));
                return Ok(SecurityResult::Authorized(user.permission));
            }
            i = i + 1;
        }
        Ok(SecurityResult::Denied(String::from_str("Wrong password")))
    }
}

/// The permissions that an entry of the file provider's password table
/// grants (as VNC authentication grants them) are those of the last user of
/// the file holding that password.
pub proof fn lemma_table_grants_last_user(users: Seq<User>, table: PasswordTable, k: int)
    requires
        table.well_formed(),
        table.spec_map() == password_map(users),
        0 <= k < table.entries@.len(),
    ensures
        exists|u: int| last_with_password(users, table.entries@[k].0@, u) && table.entries@[k].1
            == users[u].permission,
{
    crate::auth_provider::lemma_table_entry(table, k);
    let p = table.entries@[k].0@;
    assert(password_map(users).dom().contains(p));
    let w = choose|w: int| last_with_password(users, p, w);
    let i = choose|i: int| 0 <= i < users.len() && users[i].password@ == p;
    lemma_last_exists(users, p, i);
}

/// A password that some user holds has a last user holding it.
proof fn lemma_last_exists(users: Seq<User>, p: Seq<char>, i: int)
    requires
        0 <= i < users.len(),
        users[i].password@ == p,
    ensures
        exists|w: int| last_with_password(users, p, w),
    decreases users.len() - i,
{
    if exists|j: int| i < j < users.len() && users[j].password@ == p {
        let j = choose|j: int| i < j < users.len() && users[j].password@ == p;
        lemma_last_exists(users, p, j);
    } else {
        assert(last_with_password(users, p, i));
    }
}

} // verus!
