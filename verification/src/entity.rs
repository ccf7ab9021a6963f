//! The records of the store and the names of roles and permissions.

use vstd::prelude::*;
use crate::text::same_text;
use crate::text::owned;
use crate::clock::now_micros;

verus! {

/// A row of the users table. `password` holds the digest, never the plain
/// password. Timestamps are microseconds since the Unix epoch.
#[derive(Debug)]
pub struct UserInfo {
    pub id: i32,
    pub username: String,
    pub password: String,
    pub created_at: i64,
    pub updated_at: i64,
}

/// A row of the roles table.
#[derive(Debug)]
pub struct Role {
    pub id: i32,
    pub name: String,
    pub created_at: i64,
    pub updated_at: i64,
}

/// A row of the permissions table.
#[derive(Debug)]
pub struct Permission {
    pub id: i32,
    pub name: String,
    pub created_at: i64,
    pub updated_at: i64,
}

#[derive(Clone, Copy, Debug, PartialEq, Eq, Structural)]
pub enum RoleName {
    Admin,
    Moderator,
    User,
}

#[derive(Clone, Copy, Debug, PartialEq, Eq, Structural)]
pub enum PermissionName {
    Read,
    Write,
    Delete,
    ManagePermissions,
    ManageUsers,
    ManageRoles,
    ViewReports,
    EditSettings,
    UpdateUserInfo,
    UpdateUserRoles,
    UpdateUserPermissions,
}

impl Clone for UserInfo {
    fn clone(&self) -> (r: Self)
        ensures
            r == *self,
    {
        UserInfo {
            id: self.id,
            username: self.username.clone(),
            password: self.password.clone(),
            created_at: self.created_at,
            updated_at: self.updated_at,
        }
    }
}

impl Clone for Role {
    fn clone(&self) -> (r: Self)
        ensures
            r == *self,
    {
        Role {
            id: self.id,
            name: self.name.clone(),
            created_at: self.created_at,
            updated_at: self.updated_at,
        }
    }
}

impl Clone for Permission {
    fn clone(&self) -> (r: Self)
        ensures
            r == *self,
    {
        Permission {
            id: self.id,
            name: self.name.clone(),
            created_at: self.created_at,
            updated_at: self.updated_at,
        }
    }
}

impl UserInfo {
    /// A record not yet stored: id 0, timestamps from the clock.
    pub fn new(username: &str, password: &str) -> (r: Self)
        ensures
            r.id == 0,
            r.username@ == username@,
            r.password@ == password@,
    {
        UserInfo {
            id: 0,
            username: owned(username),
            password: owned(password),
            created_at: now_micros(),
            updated_at: now_micros(),
        }
    }
}

impl Role {
    /// A role record with timestamps from the clock.
    pub fn new(id: i32, role: &str) -> (r: Self)
        ensures
            r.id == id,
            r.name@ == role@,
    {
        Role { id, name: owned(role), created_at: now_micros(), updated_at: now_micros() }
    }
}

impl Permission {
    /// A permission record with timestamps from the clock.
    pub fn new(id: i32, permission: &str) -> (r: Self)
        ensures
            r.id == id,
            r.name@ == permission@,
    {
        Permission { id, name: owned(permission), created_at: now_micros(), updated_at: now_micros() }
    }
}

impl RoleName {
    /// The name under which the role is stored.
    pub open spec fn text(self) -> Seq<char> {
        match self {
            RoleName::Admin => "Admin"@,
            RoleName::Moderator => "Moderator"@,
            RoleName::User => "User"@,
        }
    }

    /// The role that a stored name stands for, if any.
    pub open spec fn parse(name: Seq<char>) -> Option<RoleName> {
        if name == "Admin"@ {
            Some(RoleName::Admin)
        } else if name == "Moderator"@ {
            Some(RoleName::Moderator)
        } else if name == "User"@ {
            Some(RoleName::User)
        } else {
            None
        }
    }

    pub fn from_str(name: &str) -> (r: Option<Self>)
        ensures
            r == Self::parse(name@),
    {
        if same_text(name, "Admin") {
            Some(RoleName::Admin)
        } else if same_text(name, "Moderator") {
            Some(RoleName::Moderator)
        } else if same_text(name, "User") {
            Some(RoleName::User)
        } else {
            None
        }
    }

    pub fn as_str(&self) -> (r: &'static str)
        ensures
            r@ == self.text(),
    {
        match self {
            RoleName::Admin => "Admin",
            RoleName::Moderator => "Moderator",
            RoleName::User => "User",
        }
    }

    /// Every role is found again from its stored name.
    pub proof fn parse_inverts_text(role: RoleName)
        ensures
            Self::parse(role.text()) == Some(role),
    {
        reveal_strlit("Admin");
        reveal_strlit("Moderator");
        reveal_strlit("User");
        assert("Admin"@.len() == 5);
        assert("Moderator"@.len() == 9);
        assert("User"@.len() == 4);
    }
}

impl PermissionName {
    /// The name under which the permission is stored.
    pub open spec fn text(self) -> Seq<char> {
        match self {
            PermissionName::Read => "READ"@,
            PermissionName::Write => "WRITE"@,
            PermissionName::Delete => "DELETE"@,
            PermissionName::ManagePermissions => "MANAGE_PERMISSIONS"@,
            PermissionName::ManageUsers => "MANAGE_USERS"@,
            PermissionName::ManageRoles => "MANAGE_ROLES"@,
            PermissionName::ViewReports => "VIEW_REPORTS"@,
            PermissionName::EditSettings => "EDIT_SETTINGS"@,
            PermissionName::UpdateUserInfo => "UPDATE_USER_INFO"@,
            PermissionName::UpdateUserRoles => "UPDATE_USER_ROLES"@,
            PermissionName::UpdateUserPermissions => "UPDATE_USER_PERMISSIONS"@,
        }
    }

    /// The permission that a stored name stands for, if any.
    pub open spec fn parse(name: Seq<char>) -> Option<PermissionName> {
        if name == "READ"@ {
            Some(PermissionName::Read)
        } else if name == "WRITE"@ {
            Some(PermissionName::Write)
        } else if name == "DELETE"@ {
            Some(PermissionName::Delete)
        } else if name == "MANAGE_PERMISSIONS"@ {
            Some(PermissionName::ManagePermissions)
        } else if name == "MANAGE_USERS"@ {
            Some(PermissionName::ManageUsers)
        } else if name == "MANAGE_ROLES"@ {
            Some(PermissionName::ManageRoles)
        } else if name == "VIEW_REPORTS"@ {
            Some(PermissionName::ViewReports)
        } else if name == "EDIT_SETTINGS"@ {
            Some(PermissionName::EditSettings)
        } else if name == "UPDATE_USER_INFO"@ {
            Some(PermissionName::UpdateUserInfo)
        } else if name == "UPDATE_USER_ROLES"@ {
            Some(PermissionName::UpdateUserRoles)
        } else if name == "UPDATE_USER_PERMISSIONS"@ {
            Some(PermissionName::UpdateUserPermissions)
        } else {
            None
        }
    }

    pub fn from_str(name: &str) -> (r: Option<Self>)
        ensures
            r == Self::parse(name@),
    {
        if same_text(name, "READ") {
            Some(PermissionName::Read)
        } else if same_text(name, "WRITE") {
            Some(PermissionName::Write)
        } else if same_text(name, "DELETE") {
            Some(PermissionName::Delete)
        } else if same_text(name, "MANAGE_PERMISSIONS") {
            Some(PermissionName::ManagePermissions)
        } else if same_text(name, "MANAGE_USERS") {
            Some(PermissionName::ManageUsers)
        } else if same_text(name, "MANAGE_ROLES") {
            Some(PermissionName::ManageRoles)
        } else if same_text(name, "VIEW_REPORTS") {
            Some(PermissionName::ViewReports)
        } else if same_text(name, "EDIT_SETTINGS") {
            Some(PermissionName::EditSettings)
        } else if same_text(name, "UPDATE_USER_INFO") {
            Some(PermissionName::UpdateUserInfo)
        } else if same_text(name, "UPDATE_USER_ROLES") {
            Some(PermissionName::UpdateUserRoles)
        } else if same_text(name, "UPDATE_USER_PERMISSIONS") {
            Some(PermissionName::UpdateUserPermissions)
        } else {
            None
        }
    }

    pub fn as_str(&self) -> (r: &'static str)
        ensures
            r@ == self.text(),
    {
        match self {
            PermissionName::Read => "READ",
            PermissionName::Write => "WRITE",
            PermissionName::Delete => "DELETE",
            PermissionName::ManagePermissions => "MANAGE_PERMISSIONS",
            PermissionName::ManageUsers => "MANAGE_USERS",
            PermissionName::ManageRoles => "MANAGE_ROLES",
            PermissionName::ViewReports => "VIEW_REPORTS",
            PermissionName::EditSettings => "EDIT_SETTINGS",
            PermissionName::UpdateUserInfo => "UPDATE_USER_INFO",
            PermissionName::UpdateUserRoles => "UPDATE_USER_ROLES",
            PermissionName::UpdateUserPermissions => "UPDATE_USER_PERMISSIONS",
        }
    }

    /// Every permission is found again from its stored name.
    pub proof fn parse_inverts_text(permission: PermissionName)
        ensures
            Self::parse(permission.text()) == Some(permission),
    {
        reveal_strlit("READ");
        reveal_strlit("WRITE");
        reveal_strlit("DELETE");
        reveal_strlit("MANAGE_PERMISSIONS");
        reveal_strlit("MANAGE_USERS");
        reveal_strlit("MANAGE_ROLES");
        reveal_strlit("VIEW_REPORTS");
        reveal_strlit("EDIT_SETTINGS");
        reveal_strlit("UPDATE_USER_INFO");
        reveal_strlit("UPDATE_USER_ROLES");
        reveal_strlit("UPDATE_USER_PERMISSIONS");
        assert("READ"@.len() == 4);
        assert("WRITE"@.len() == 5);
        assert("DELETE"@.len() == 6);
        assert("MANAGE_PERMISSIONS"@.len() == 18);
        assert("MANAGE_USERS"@.len() == 12 && "MANAGE_USERS"@[7] == 'U');
        assert("MANAGE_ROLES"@.len() == 12 && "MANAGE_ROLES"@[7] == 'R' && "MANAGE_ROLES"@[0] == 'M');
        assert("VIEW_REPORTS"@.len() == 12 && "VIEW_REPORTS"@[0] == 'V' && "VIEW_REPORTS"@[7] == 'P');
        assert("EDIT_SETTINGS"@.len() == 13);
        assert("UPDATE_USER_INFO"@.len() == 16);
        assert("UPDATE_USER_ROLES"@.len() == 17);
        assert("UPDATE_USER_PERMISSIONS"@.len() == 23);
    }
}

impl AsRef<str> for RoleName {
    fn as_ref(&self) -> (r: &str)
        ensures
            r@ == self.text(),
    {
        self.as_str()
    }
}

impl AsRef<str> for PermissionName {
    fn as_ref(&self) -> (r: &str)
        ensures
            r@ == self.text(),
    {
        self.as_str()
    }
}

/// What the service reads off a list of role or permission records. `T` is
/// the enum that names the records.
pub trait VecExtensions<T> {
    spec fn ids(&self) -> Seq<i32>;

    spec fn names(&self) -> Seq<Seq<char>>;

    spec fn has_name(&self, name: T) -> bool;

    fn extract_ids(&self) -> (r: Vec<i32>)
        ensures
            r@ == self.ids(),
    ;

    fn extract_names(&self) -> (r: Vec<String>)
        ensures
            r@.len() == self.names().len(),
            forall|i: int| 0 <= i < r@.len() ==> (#[trigger] r@[i])@ == self.names()[i],
    ;

    fn contains_name(&self, name: T) -> (r: bool)
        ensures
            r == self.has_name(name),
    ;
}

impl VecExtensions<RoleName> for Vec<Role> {
    open spec fn ids(&self) -> Seq<i32> {
        Seq::new(self@.len(), |i: int| self@[i].id)
    }

    open spec fn names(&self) -> Seq<Seq<char>> {
        Seq::new(self@.len(), |i: int| self@[i].name@)
    }

    open spec fn has_name(&self, name: RoleName) -> bool {
        exists|i: int| 0 <= i < self@.len() && RoleName::parse(#[trigger] self@[i].name@) == Some(name)
    }

    fn extract_ids(&self) -> (r: Vec<i32>) {
        let mut out: Vec<i32> = Vec::new();
        let mut i: usize = 0;
        while i < self.len()
            invariant
                i <= self@.len(),
                out@.len() == i,
                forall|k: int| 0 <= k < i ==> out@[k] == self@[k].id,
            decreases self@.len() - i,
        {
            out.push(self[i].id);
            i += 1;
        }
        assert(out@ =~= self.ids());
        out
    }

    fn extract_names(&self) -> (r: Vec<String>) {
        let mut out: Vec<String> = Vec::new();
        let mut i: usize = 0;
        while i < self.len()
            invariant
                i <= self@.len(),
                out@.len() == i,
                forall|k: int| 0 <= k < i ==> (#[trigger] out@[k])@ == self@[k].name@,
            decreases self@.len() - i,
        {
            out.push(self[i].name.clone());
            i += 1;
        }
        out
    }

    fn contains_name(&self, name: RoleName) -> (r: bool) {
        let mut i: usize = 0;
        while i < self.len()
            invariant
                i <= self@.len(),
                forall|k: int| 0 <= k < i ==> RoleName::parse(#[trigger] self@[k].name@) != Some(name),
            decreases self@.len() - i,
        {
            match RoleName::from_str(self[i].name.as_str()) {
                Some(found) => {
                    if found == name {
                        return true;
                    }
                },
                None => {},
            }
            i += 1;
        }
        false
    }
}

impl VecExtensions<PermissionName> for Vec<Permission> {
    open spec fn ids(&self) -> Seq<i32> {
        Seq::new(self@.len(), |i: int| self@[i].id)
    }

    open spec fn names(&self) -> Seq<Seq<char>> {
        Seq::new(self@.len(), |i: int| self@[i].name@)
    }

    open spec fn has_name(&self, name: PermissionName) -> bool {
        exists|i: int| 0 <= i < self@.len() && PermissionName::parse(#[trigger] self@[i].name@) == Some(name)
    }

    fn extract_ids(&self) -> (r: Vec<i32>) {
        let mut out: Vec<i32> = Vec::new();
        let mut i: usize = 0;
        while i < self.len()
            invariant
                i <= self@.len(),
                out@.len() == i,
                forall|k: int| 0 <= k < i ==> out@[k] == self@[k].id,
            decreases self@.len() - i,
        {
            out.push(self[i].id);
            i += 1;
        }
        assert(out@ =~= self.ids());
        out
    }

    fn extract_names(&self) -> (r: Vec<String>) {
        let mut out: Vec<String> = Vec::new();
        let mut i: usize = 0;
        while i < self.len()
            invariant
                i <= self@.len(),
                out@.len() == i,
                forall|k: int| 0 <= k < i ==> (#[trigger] out@[k])@ == self@[k].name@,
            decreases self@.len() - i,
        {
            out.push(self[i].name.clone());
            i += 1;
        }
        out
    }

    fn contains_name(&self, name: PermissionName) -> (r: bool) {
        let mut i: usize = 0;
        while i < self.len()
            invariant
                i <= self@.len(),
                forall|k: int| 0 <= k < i ==> PermissionName::parse(#[trigger] self@[k].name@) != Some(name),
            decreases self@.len() - i,
        {
            match PermissionName::from_str(self[i].name.as_str()) {
                Some(found) => {
                    if found == name {
                        return true;
                    }
                },
                None => {},
            }
            i += 1;
        }
        false
    }
}

} // verus!
