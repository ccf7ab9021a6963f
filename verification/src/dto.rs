//! The values that requests carry in and answers carry out.

use vstd::prelude::*;
use crate::entity::{Permission, PermissionName, Role, RoleName, UserInfo, VecExtensions};
use crate::text::owned;

verus! {

/// A signup request.
#[derive(Debug)]
pub struct CreateUser {
    pub username: String,
    pub password: String,
}

/// The changes that an update request asks for.
#[derive(Debug)]
pub struct UpdateUserOptions {
    pub username: Option<String>,
    pub password: Option<String>,
    pub roles: Option<Vec<RoleIn>>,
    pub permissions: Option<Vec<PermissionIn>>,
}

/// An update request together with what the requester is to the target.
#[derive(Debug)]
pub struct UpdateUser {
    pub username: Option<String>,
    pub password: Option<String>,
    pub roles: Option<Vec<RoleIn>>,
    pub permissions: Option<Vec<PermissionIn>>,
    pub is_own_user: bool,
    pub is_moderator: bool,
    pub is_admin: bool,
}

/// What the requester is to the target of a request.
#[derive(Clone, Copy, Debug, PartialEq, Eq, Structural)]
pub struct IsWho {
    pub is_own_user: bool,
    pub is_moderator: bool,
    pub is_admin: bool,
}

/// A role named in an update request.
#[derive(Debug)]
pub struct RoleIn {
    pub id: i32,
    pub name: String,
}

/// A permission named in an update request.
#[derive(Debug)]
pub struct PermissionIn {
    pub id: i32,
    pub name: String,
}

/// The window of a listing.
#[derive(Clone, Copy, Debug, PartialEq, Eq, Structural)]
pub struct PaginationParams {
    pub limit: i64,
    pub offset: i64,
}

/// A user with the roles and permissions held at the time of reading.
#[derive(Debug)]
pub struct User {
    pub user_info: UserInfo,
    pub roles: Vec<Role>,
    pub permissions: Vec<Permission>,
}

/// One page of users and the number of users in the whole store.
#[derive(Debug)]
pub struct PaginatedUsers {
    pub users: Vec<User>,
    pub total_count: i64,
}

/// A sign-in request.
#[derive(Debug)]
pub struct TokenRequest {
    pub username: String,
    pub password: String,
}

/// A signed token and the scheme under which it is sent.
#[derive(Debug)]
pub struct TokenResponse {
    pub token: String,
    pub token_type: Option<String>,
}

impl CreateUser {
    pub fn new(username: &str, password: &str) -> (r: Self)
        ensures
            r.username@ == username@,
            r.password@ == password@,
    {
        CreateUser { username: owned(username), password: owned(password) }
    }
}

impl IsWho {
    /// Who may update a user: the requester is the user, an admin or a
    /// moderator.
    pub open spec fn may_update(self) -> bool {
        self.is_own_user || self.is_admin || self.is_moderator
    }

    pub fn can_update(&self) -> (r: bool)
        ensures
            r == self.may_update(),
    {
        self.is_own_user || self.is_admin || self.is_moderator
    }

    pub fn new(is_own_user: bool, is_moderator: bool, is_admin: bool) -> (r: Self)
        ensures
            r == (IsWho { is_own_user, is_moderator, is_admin }),
    {
        IsWho { is_own_user, is_moderator, is_admin }
    }
}

impl UpdateUser {
    pub fn new(input: UpdateUserOptions, is_who: IsWho) -> (r: Self)
        ensures
            r.username == input.username,
            r.password == input.password,
            r.roles == input.roles,
            r.permissions == input.permissions,
            r.is_own_user == is_who.is_own_user,
            r.is_moderator == is_who.is_moderator,
            r.is_admin == is_who.is_admin,
    {
        UpdateUser {
            username: input.username,
            password: input.password,
            roles: input.roles,
            permissions: input.permissions,
            is_own_user: is_who.is_own_user,
            is_moderator: is_who.is_moderator,
            is_admin: is_who.is_admin,
        }
    }

    /// What the requester is to the target, as carried by the request.
    pub open spec fn who(self) -> IsWho {
        IsWho { is_own_user: self.is_own_user, is_moderator: self.is_moderator, is_admin: self.is_admin }
    }
}

impl PaginationParams {
    /// The window that a validated request may ask for.
    pub open spec fn in_bounds(self) -> bool {
        1 <= self.limit <= 100 && self.offset >= 0
    }

    pub fn is_valid(&self) -> (r: bool)
        ensures
            r == self.in_bounds(),
    {
        1 <= self.limit && self.limit <= 100 && self.offset >= 0
    }
}

impl Default for PaginationParams {
    fn default() -> (r: Self)
        ensures
            r == (PaginationParams { limit: 10, offset: 0 }),
    {
        PaginationParams { limit: 10, offset: 0 }
    }
}

impl Clone for User {
    fn clone(&self) -> (r: Self)
        ensures
            r.user_info == self.user_info,
            r.roles@ == self.roles@,
            r.permissions@ == self.permissions@,
    {
        User {
            user_info: self.user_info.clone(),
            roles: self.roles.clone(),
            permissions: self.permissions.clone(),
        }
    }
}

impl User {
    pub fn new(user_info: UserInfo, roles: Vec<Role>, permissions: Vec<Permission>) -> (r: Self)
        ensures
            r.user_info == user_info,
            r.roles == roles,
            r.permissions == permissions,
    {
        User { user_info, roles, permissions }
    }
}

impl TokenRequest {
    pub fn new(username: &str, password: &str) -> (r: Self)
        ensures
            r.username@ == username@,
            r.password@ == password@,
    {
        TokenRequest { username: owned(username), password: owned(password) }
    }
}

impl TokenResponse {
    pub fn new(token: &str) -> (r: Self)
        ensures
            r.token@ == token@,
            r.token_type matches Some(scheme) && scheme@ == "Bearer"@,
    {
        TokenResponse { token: owned(token), token_type: Some(owned("Bearer")) }
    }
}

impl Default for TokenResponse {
    fn default() -> (r: Self)
        ensures
            r.token@ == Seq::<char>::empty(),
            r.token_type matches Some(scheme) && scheme@ == "Bearer"@,
    {
        TokenResponse { token: String::new(), token_type: Some(owned("Bearer")) }
    }
}

impl VecExtensions<RoleName> for Vec<RoleIn> {
    open spec fn ids(&self) -> Seq<i32> {
        Seq::new(self@.len(), |i: int| self@[i].id)
    }

    open spec fn names(&self) -> Seq<Seq<char>> {
        Seq::new(self@.len(), |i: int| self@[i].name@)
    }

    open spec fn has_name(&self, name: RoleName) -> bool {
        exists|i: int| 0 <= i < self@.len() && RoleName::parse(#[trigger] self@[i].name@) == Some(name)
    }

    fn extract_ids(&self) -> (r: Vec<i32>) {
        let mut out: Vec<i32> = Vec::new();
        let mut i: usize = 0;
        while i < self.len()
            invariant
                i <= self@.len(),
                out@.len() == i,
                forall|k: int| 0 <= k < i ==> out@[k] == self@[k].id,
            decreases self@.len() - i,
        {
            out.push(self[i].id);
            i += 1;
        }
        assert(out@ =~= self.ids());
        out
    }

    fn extract_names(&self) -> (r: Vec<String>) {
        let mut out: Vec<String> = Vec::new();
        let mut i: usize = 0;
        while i < self.len()
            invariant
                i <= self@.len(),
                out@.len() == i,
                forall|k: int| 0 <= k < i ==> (#[trigger] out@[k])@ == self@[k].name@,
            decreases self@.len() - i,
        {
            out.push(self[i].name.clone());
            i += 1;
        }
        out
    }

    fn contains_name(&self, name: RoleName) -> (r: bool) {
        let mut i: usize = 0;
        while i < self.len()
            invariant
                i <= self@.len(),
                forall|k: int| 0 <= k < i ==> RoleName::parse(#[trigger] self@[k].name@) != Some(name),
            decreases self@.len() - i,
        {
            match RoleName::from_str(self[i].name.as_str()) {
                Some(found) => {
                    if found == name {
                        return true;
                    }
                },
                None => {},
            }
            i += 1;
        }
        false
    }
}

impl VecExtensions<PermissionName> for Vec<PermissionIn> {
    open spec fn ids(&self) -> Seq<i32> {
        Seq::new(self@.len(), |i: int| self@[i].id)
    }

    open spec fn names(&self) -> Seq<Seq<char>> {
        Seq::new(self@.len(), |i: int| self@[i].name@)
    }

    open spec fn has_name(&self, name: PermissionName) -> bool {
        exists|i: int| 0 <= i < self@.len() && PermissionName::parse(#[trigger] self@[i].name@) == Some(name)
    }

    fn extract_ids(&self) -> (r: Vec<i32>) {
        let mut out: Vec<i32> = Vec::new();
        let mut i: usize = 0;
        while i < self.len()
            invariant
                i <= self@.len(),
                out@.len() == i,
                forall|k: int| 0 <= k < i ==> out@[k] == self@[k].id,
            decreases self@.len() - i,
        {
            out.push(self[i].id);
            i += 1;
        }
        assert(out@ =~= self.ids());
        out
    }

    fn extract_names(&self) -> (r: Vec<String>) {
        let mut out: Vec<String> = Vec::new();
        let mut i: usize = 0;
        while i < self.len()
            invariant
                i <= self@.len(),
                out@.len() == i,
                forall|k: int| 0 <= k < i ==> (#[trigger] out@[k])@ == self@[k].name@,
            decreases self@.len() - i,
        {
            out.push(self[i].name.clone());
            i += 1;
        }
        out
    }

    fn contains_name(&self, name: PermissionName) -> (r: bool) {
        let mut i: usize = 0;
        while i < self.len()
            invariant
                i <= self@.len(),
                forall|k: int| 0 <= k < i ==> PermissionName::parse(#[trigger] self@[k].name@) != Some(name),
            decreases self@.len() - i,
        {
            match PermissionName::from_str(self[i].name.as_str()) {
                Some(found) => {
                    if found == name {
                        return true;
                    }
                },
                None => {},
            }
            i += 1;
        }
        false
    }
}

} // verus!
