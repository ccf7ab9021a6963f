//! The store: users, the reference data of roles and permissions, and the
//! membership tables that link them, with the reads that assemble a user.

use vstd::prelude::*;
use crate::dto::{IsWho, PaginatedUsers, User};
use crate::entity::{Permission, Role, RoleName, UserInfo, VecExtensions};
use crate::errors::AppError;
use crate::links::{distinct_pairs, find_link, items_of, Membership};
use crate::reconcile::contains_id;
use crate::text::{owned, same_text};

verus! {

/// One row of the mapping from roles to the permissions they grant.
#[derive(Clone, Copy, Debug, PartialEq, Eq, Structural)]
pub struct RolePermission {
    pub role_id: i32,
    pub permission_id: i32,
}

/// The state of the service: every table of the store, and the id that the
/// next user gets. Users are kept in ascending order of id.
#[derive(Debug)]
pub struct AppState {
    pub users: Vec<UserInfo>,
    pub roles: Vec<Role>,
    pub permissions: Vec<Permission>,
    pub role_permissions: Vec<RolePermission>,
    pub user_roles: Vec<Membership>,
    pub user_permissions: Vec<Membership>,
    pub next_user_id: i64,
}

/// The tables of the store as sequences of rows.
pub struct StoreView {
    pub users: Seq<UserInfo>,
    pub roles: Seq<Role>,
    pub permissions: Seq<Permission>,
    pub role_permissions: Seq<RolePermission>,
    pub user_roles: Seq<Membership>,
    pub user_permissions: Seq<Membership>,
    pub next_user_id: int,
}

impl View for AppState {
    type V = StoreView;

    open spec fn view(&self) -> StoreView {
        StoreView {
            users: self.users@,
            roles: self.roles@,
            permissions: self.permissions@,
            role_permissions: self.role_permissions@,
            user_roles: self.user_roles@,
            user_permissions: self.user_permissions@,
            next_user_id: self.next_user_id as int,
        }
    }
}

/// The permissions that the roles in `roles` grant.
pub open spec fn granted(mapping: Seq<RolePermission>, roles: Set<i32>) -> Set<i32> {
    Set::new(
        |p: i32|
            exists|k: int|
                0 <= k < mapping.len() && (#[trigger] mapping[k]).permission_id == p
                    && roles.contains(mapping[k].role_id),
    )
}

/// The permissions that the roles in `roles` grant, each once, in the order
/// in which the mapping first names them.
pub open spec fn grants_in_order(mapping: Seq<RolePermission>, roles: Set<i32>) -> Seq<i32>
    decreases mapping.len(),
{
    if mapping.len() == 0 {
        Seq::<i32>::empty()
    } else {
        let head = grants_in_order(mapping.drop_last(), roles);
        let last = mapping.last();
        if roles.contains(last.role_id) && !head.contains(last.permission_id) {
            head.push(last.permission_id)
        } else {
            head
        }
    }
}

/// The records among `roles` whose id is in `ids`, in table order.
pub open spec fn roles_among(roles: Seq<Role>, ids: Set<i32>) -> Seq<Role>
    decreases roles.len(),
{
    if roles.len() == 0 {
        Seq::<Role>::empty()
    } else if ids.contains(roles.last().id) {
        roles_among(roles.drop_last(), ids).push(roles.last())
    } else {
        roles_among(roles.drop_last(), ids)
    }
}

/// The records among `permissions` whose id is in `ids`, in table order.
pub open spec fn permissions_among(permissions: Seq<Permission>, ids: Set<i32>) -> Seq<Permission>
    decreases permissions.len(),
{
    if permissions.len() == 0 {
        Seq::<Permission>::empty()
    } else if ids.contains(permissions.last().id) {
        permissions_among(permissions.drop_last(), ids).push(permissions.last())
    } else {
        permissions_among(permissions.drop_last(), ids)
    }
}

/// How many users a listing returns from a store of `total` users.
pub open spec fn window_len(total: int, limit: int, offset: int) -> int {
    if offset >= total {
        0
    } else if total - offset < limit {
        total - offset
    } else {
        limit
    }
}

/// What a requester with the identity `claims` is to the user `user_id`.
pub open spec fn who_is(claims: User, user_id: i32) -> IsWho {
    IsWho {
        is_own_user: claims.user_info.id == user_id,
        is_moderator: claims.roles.has_name(RoleName::Moderator),
        is_admin: claims.roles.has_name(RoleName::Admin),
    }
}

impl StoreView {
    pub open spec fn has_user(self, id: i32) -> bool {
        exists|i: int| 0 <= i < self.users.len() && (#[trigger] self.users[i]).id == id
    }

    pub open spec fn user_index(self, id: i32) -> int {
        choose|i: int| 0 <= i < self.users.len() && (#[trigger] self.users[i]).id == id
    }

    pub open spec fn has_username(self, name: Seq<char>) -> bool {
        exists|i: int| 0 <= i < self.users.len() && (#[trigger] self.users[i]).username@ == name
    }

    pub open spec fn username_index(self, name: Seq<char>) -> int {
        choose|i: int| 0 <= i < self.users.len() && (#[trigger] self.users[i]).username@ == name
    }

    /// The roles that the user holds.
    pub open spec fn role_ids(self, user_id: i32) -> Set<i32> {
        items_of(self.user_roles, user_id)
    }

    /// The permissions materialized for the user.
    pub open spec fn permission_ids(self, user_id: i32) -> Set<i32> {
        items_of(self.user_permissions, user_id)
    }

    /// The permissions that the user's current roles admit.
    pub open spec fn allowed_permissions(self, user_id: i32) -> Set<i32> {
        granted(self.role_permissions, self.role_ids(user_id))
    }

    pub open spec fn roles_of(self, user_id: i32) -> Seq<Role> {
        roles_among(self.roles, self.role_ids(user_id))
    }

    pub open spec fn permissions_of(self, user_id: i32) -> Seq<Permission> {
        permissions_among(self.permissions, self.permission_ids(user_id))
    }

    /// `user` is the user in row `i`, assembled with the roles and
    /// permissions held now; the digest is shown only where `with_digest`.
    pub open spec fn shows(self, user: User, i: int, with_digest: bool) -> bool {
        &&& 0 <= i < self.users.len()
        &&& user.user_info.id == self.users[i].id
        &&& user.user_info.username@ == self.users[i].username@
        &&& user.user_info.password@ == if with_digest {
            self.users[i].password@
        } else {
            Seq::<char>::empty()
        }
        &&& user.user_info.created_at == self.users[i].created_at
        &&& user.user_info.updated_at == self.users[i].updated_at
        &&& user.roles@ == self.roles_of(self.users[i].id)
        &&& user.permissions@ == self.permissions_of(self.users[i].id)
    }

    /// The invariant of the store: users ascend by id below the next id,
    /// usernames are unique, a membership table holds each pair once, and
    /// every membership row belongs to a user of the store.
    pub open spec fn wf(self) -> bool {
        &&& forall|i: int, j: int|
            0 <= i < j < self.users.len() ==> (#[trigger] self.users[i]).id < (
            #[trigger] self.users[j]).id
        &&& forall|i: int|
            0 <= i < self.users.len() ==> (#[trigger] self.users[i]).id < self.next_user_id
        &&& forall|i: int, j: int|
            0 <= i < j < self.users.len() ==> (#[trigger] self.users[i]).username@ != (
            #[trigger] self.users[j]).username@
        &&& self.users.len() < self.next_user_id <= 0x8000_0000
        &&& distinct_pairs(self.user_roles)
        &&& distinct_pairs(self.user_permissions)
        &&& forall|k: int|
            0 <= k < self.user_roles.len() ==> self.has_user((#[trigger] self.user_roles[k]).user_id)
        &&& forall|k: int|
            0 <= k < self.user_permissions.len() ==> self.has_user(
                (#[trigger] self.user_permissions[k]).user_id,
            )
    }

    /// In a well-formed store the row of an id is the only one.
    pub proof fn lemma_user_index_is(self, id: i32, i: int)
        requires
            self.wf(),
            0 <= i < self.users.len(),
            self.users[i].id == id,
        ensures
            self.has_user(id),
            self.user_index(id) == i,
    {
        let k = self.user_index(id);
        if k < i {
            assert(self.users[k].id < self.users[i].id);
        } else if i < k {
            assert(self.users[i].id < self.users[k].id);
        }
    }

    /// In a well-formed store the row of a username is the only one.
    pub proof fn lemma_username_index_is(self, name: Seq<char>, i: int)
        requires
            self.wf(),
            0 <= i < self.users.len(),
            self.users[i].username@ == name,
        ensures
            self.has_username(name),
            self.username_index(name) == i,
    {
        let k = self.username_index(name);
        if k < i {
            assert(self.users[k].username@ != self.users[i].username@);
        } else if i < k {
            assert(self.users[i].username@ != self.users[k].username@);
        }
    }
}

/// The permissions that `role_ids` grant are their grants in order, each
/// once.
pub proof fn lemma_grants_in_order(mapping: Seq<RolePermission>, roles: Set<i32>)
    ensures
        grants_in_order(mapping, roles).no_duplicates(),
        grants_in_order(mapping, roles).to_set() == granted(mapping, roles),
        forall|p: i32|
            #![trigger grants_in_order(mapping, roles).contains(p)]
            grants_in_order(mapping, roles).contains(p) <==> granted(mapping, roles).contains(p),
    decreases mapping.len(),
{
    let out = grants_in_order(mapping, roles);
    if mapping.len() == 0 {
        assert forall|p: i32| out.contains(p) <==> granted(mapping, roles).contains(p) by {}
    } else {
        let init = mapping.drop_last();
        let last = mapping.last();
        let head = grants_in_order(init, roles);
        let n = init.len() as int;
        lemma_grants_in_order(init, roles);
        assert forall|p: i32| out.contains(p) <==> granted(mapping, roles).contains(p) by {
            crate::reconcile::lemma_push_contains(head, last.permission_id, p);
            if granted(init, roles).contains(p) {
                let k = choose|k: int|
                    0 <= k < init.len() && (#[trigger] init[k]).permission_id == p
                        && roles.contains(init[k].role_id);
                assert(mapping[k] == init[k]);
            }
            if granted(mapping, roles).contains(p) {
                let k = choose|k: int|
                    0 <= k < mapping.len() && (#[trigger] mapping[k]).permission_id == p
                        && roles.contains(mapping[k].role_id);
                if k < n {
                    assert(init[k] == mapping[k]);
                }
            }
            if roles.contains(last.role_id) && p == last.permission_id {
                assert(mapping[n] == last);
            }
            assert(head.contains(p) <==> granted(init, roles).contains(p));
        }
        if roles.contains(last.role_id) && !head.contains(last.permission_id) {
            assert forall|p: int, q: int| 0 <= p < out.len() && 0 <= q < out.len() && p
                != q implies out[p] != out[q] by {
                if p == head.len() {
                    assert(out[q] == head[q]);
                    assert(head.contains(head[q]));
                } else if q == head.len() {
                    assert(out[p] == head[p]);
                    assert(head.contains(head[p]));
                } else {
                    assert(out[p] == head[p] && out[q] == head[q]);
                }
            }
        }
    }
    assert(out.to_set() =~= granted(mapping, roles));
}

/// The permissions that the roles in `role_ids` grant, each once.
pub fn granted_by(mapping: &Vec<RolePermission>, role_ids: &Vec<i32>) -> (r: Vec<i32>)
    ensures
        r@ == grants_in_order(mapping@, role_ids@.to_set()),
        r@.no_duplicates(),
        r@.to_set() == granted(mapping@, role_ids@.to_set()),
{
    let mut out: Vec<i32> = Vec::new();
    let mut i: usize = 0;
    while i < mapping.len()
        invariant
            i <= mapping@.len(),
            out@ == grants_in_order(mapping@.subrange(0, i as int), role_ids@.to_set()),
        decreases mapping@.len() - i,
    {
        assert(mapping@.subrange(0, i + 1).drop_last() =~= mapping@.subrange(0, i as int));
        let row = mapping[i];
        if contains_id(role_ids, row.role_id) && !contains_id(&out, row.permission_id) {
            out.push(row.permission_id);
        }
        i += 1;
    }
    proof {
        assert(mapping@.subrange(0, i as int) =~= mapping@);
        lemma_grants_in_order(mapping@, role_ids@.to_set());
    }
    out
}

/// The role records that `user_id` holds, in table order.
pub fn roles_held(roles: &Vec<Role>, rows: &Vec<Membership>, user_id: i32) -> (r: Vec<Role>)
    ensures
        r@ == roles_among(roles@, items_of(rows@, user_id)),
{
    let mut out: Vec<Role> = Vec::new();
    let mut i: usize = 0;
    while i < roles.len()
        invariant
            i <= roles@.len(),
            out@ == roles_among(roles@.subrange(0, i as int), items_of(rows@, user_id)),
        decreases roles@.len() - i,
    {
        assert(roles@.subrange(0, i + 1).drop_last() =~= roles@.subrange(0, i as int));
        if find_link(rows, user_id, roles[i].id).is_some() {
            out.push(roles[i].clone());
        }
        i += 1;
    }
    assert(roles@.subrange(0, i as int) =~= roles@);
    out
}

/// The permission records that `user_id` holds, in table order.
pub fn permissions_held(permissions: &Vec<Permission>, rows: &Vec<Membership>, user_id: i32) -> (r:
    Vec<Permission>)
    ensures
        r@ == permissions_among(permissions@, items_of(rows@, user_id)),
{
    let mut out: Vec<Permission> = Vec::new();
    let mut i: usize = 0;
    while i < permissions.len()
        invariant
            i <= permissions@.len(),
            out@ == permissions_among(
                permissions@.subrange(0, i as int),
                items_of(rows@, user_id),
            ),
        decreases permissions@.len() - i,
    {
        assert(permissions@.subrange(0, i + 1).drop_last() =~= permissions@.subrange(0, i as int));
        if find_link(rows, user_id, permissions[i].id).is_some() {
            out.push(permissions[i].clone());
        }
        i += 1;
    }
    assert(permissions@.subrange(0, i as int) =~= permissions@);
    out
}

impl AppState {
    /// A store with the given reference data and no user; the first user
    /// gets id 1.
    pub fn new(roles: Vec<Role>, permissions: Vec<Permission>, role_permissions: Vec<RolePermission>) -> (r:
        Self)
        ensures
            r@.wf(),
            r@.users.len() == 0,
            r@.user_roles.len() == 0,
            r@.user_permissions.len() == 0,
            r@.roles == roles@,
            r@.permissions == permissions@,
            r@.role_permissions == role_permissions@,
            r@.next_user_id == 1,
    {
        AppState {
            users: Vec::new(),
            roles,
            permissions,
            role_permissions,
            user_roles: Vec::new(),
            user_permissions: Vec::new(),
            next_user_id: 1,
        }
    }

    /// The row of the user with this id, if there is one.
    pub fn find_user(&self, user_id: i32) -> (r: Option<usize>)
        requires
            self@.wf(),
        ensures
            match r {
                Some(i) => self@.has_user(user_id) && i == self@.user_index(user_id),
                None => !self@.has_user(user_id),
            },
    {
        let mut i: usize = 0;
        while i < self.users.len()
            invariant
                i <= self.users@.len(),
                self@.wf(),
                forall|k: int| 0 <= k < i ==> (#[trigger] self.users@[k]).id != user_id,
            decreases self.users@.len() - i,
        {
            if self.users[i].id == user_id {
                proof {
                    self@.lemma_user_index_is(user_id, i as int);
                }
                return Some(i);
            }
            i += 1;
        }
        None
    }

    /// The row of the user with this username, if there is one.
    pub fn find_username(&self, username: &str) -> (r: Option<usize>)
        requires
            self@.wf(),
        ensures
            match r {
                Some(i) => self@.has_username(username@) && i == self@.username_index(username@),
                None => !self@.has_username(username@),
            },
    {
        let mut i: usize = 0;
        while i < self.users.len()
            invariant
                i <= self.users@.len(),
                self@.wf(),
                forall|k: int| 0 <= k < i ==> (#[trigger] self.users@[k]).username@ != username@,
            decreases self.users@.len() - i,
        {
            if same_text(self.users[i].username.as_str(), username) {
                proof {
                    self@.lemma_username_index_is(username@, i as int);
                }
                return Some(i);
            }
            i += 1;
        }
        None
    }

    pub fn is_user_exists_by_id(&self, user_id: i32) -> (r: Result<bool, AppError>)
        requires
            self@.wf(),
        ensures
            r == Ok::<bool, AppError>(self@.has_user(user_id)),
    {
        Ok(self.find_user(user_id).is_some())
    }

    pub fn is_user_exists_by_username(&self, username: &str) -> (r: Result<bool, AppError>)
        requires
            self@.wf(),
        ensures
            r == Ok::<bool, AppError>(self@.has_username(username@)),
    {
        Ok(self.find_username(username).is_some())
    }

    /// The role records of the user, in table order; none for an id that
    /// holds no role.
    pub fn get_user_roles(&self, user_id: i32) -> (r: Result<Vec<Role>, AppError>)
        ensures
            r matches Ok(roles) && roles@ == self@.roles_of(user_id),
    {
        Ok(roles_held(&self.roles, &self.user_roles, user_id))
    }

    /// The permission records materialized for the user, in table order.
    pub fn get_user_permissions(&self, user_id: i32) -> (r: Result<Vec<Permission>, AppError>)
        ensures
            r matches Ok(permissions) && permissions@ == self@.permissions_of(user_id),
    {
        Ok(permissions_held(&self.permissions, &self.user_permissions, user_id))
    }

    /// The user of row `i` with the roles and permissions held now.
    pub fn user_at(&self, i: usize, with_digest: bool) -> (user: User)
        requires
            i < self@.users.len(),
        ensures
            self@.shows(user, i as int, with_digest),
            with_digest ==> user.user_info == self@.users[i as int],
    {
        let row = &self.users[i];
        let password = if with_digest {
            row.password.clone()
        } else {
            String::new()
        };
        let info = UserInfo {
            id: row.id,
            username: row.username.clone(),
            password,
            created_at: row.created_at,
            updated_at: row.updated_at,
        };
        let roles = roles_held(&self.roles, &self.user_roles, row.id);
        let permissions = permissions_held(&self.permissions, &self.user_permissions, row.id);
        User::new(info, roles, permissions)
    }

    /// The user with this id, digest included; `NotFound` exactly when the
    /// store has no such user.
    pub fn get_user_by_id(&self, user_id: i32) -> (r: Result<User, AppError>)
        requires
            self@.wf(),
        ensures
            match r {
                Ok(user) => self@.has_user(user_id) && self@.shows(
                    user,
                    self@.user_index(user_id),
                    true,
                ),
                Err(e) => !self@.has_user(user_id) && e.missing_user(user_id),
            },
    {
        match self.find_user(user_id) {
            Some(i) => Ok(self.user_at(i, true)),
            None => Err(AppError::user_not_found(user_id)),
        }
    }

    /// The user with this username, without the digest; `NotFound` exactly
    /// when the store has no such user.
    pub fn get_user_by_username(&self, username: &str) -> (r: Result<User, AppError>)
        requires
            self@.wf(),
        ensures
            match r {
                Ok(user) => self@.has_username(username@) && self@.shows(
                    user,
                    self@.username_index(username@),
                    false,
                ),
                Err(e) => !self@.has_username(username@) && e.missing_name(username@),
            },
    {
        match self.find_username(username) {
            Some(i) => Ok(self.user_at(i, false)),
            None => Err(AppError::username_not_found(username)),
        }
    }

    /// The user with this username, digest included, for a credential check.
    pub fn verify_user_by_username(&self, username: &str) -> (r: Result<User, AppError>)
        requires
            self@.wf(),
        ensures
            match r {
                Ok(user) => self@.has_username(username@) && self@.shows(
                    user,
                    self@.username_index(username@),
                    true,
                ),
                Err(e) => !self@.has_username(username@) && e.missing_name(username@),
            },
    {
        match self.find_username(username) {
            Some(i) => Ok(self.user_at(i, true)),
            None => Err(AppError::username_not_found(username)),
        }
    }

    /// One page of users in ascending order of id, without digests, and the
    /// number of users in the store. A negative limit or offset is refused
    /// as the store refuses it.
    pub fn get_users(&self, limit: i64, offset: i64) -> (r: Result<PaginatedUsers, AppError>)
        requires
            self@.wf(),
        ensures
            match r {
                Ok(page) => {
                    &&& limit >= 0 && offset >= 0
                    &&& page.total_count == self@.users.len()
                    &&& page.users@.len() == window_len(
                        self@.users.len() as int,
                        limit as int,
                        offset as int,
                    )
                    &&& forall|k: int|
                        0 <= k < page.users@.len() ==> self@.shows(
                            #[trigger] page.users@[k],
                            offset + k,
                            false,
                        )
                },
                Err(e) => (limit < 0 || offset < 0) && e is DatabaseError && e.detail() == if limit
                    < 0 {
                    "LIMIT must not be negative"@
                } else {
                    "OFFSET must not be negative"@
                },
            },
    {
        if limit < 0 {
            return Err(AppError::DatabaseError(owned("LIMIT must not be negative")));
        }
        if offset < 0 {
            return Err(AppError::DatabaseError(owned("OFFSET must not be negative")));
        }
        let total: usize = self.users.len();
        let mut users: Vec<User> = Vec::new();
        if offset < total as i64 {
            let start: usize = offset as usize;
            let mut k: usize = start;
            while k < total && ((k - start) as i64) < limit
                invariant
                    total == self@.users.len(),
                    total < 0x8000_0000,
                    start == offset,
                    start <= k <= total,
                    users@.len() == k - start,
                    k - start <= limit,
                    forall|j: int|
                        0 <= j < users@.len() ==> self@.shows(#[trigger] users@[j], offset + j, false),
                decreases total - k,
            {
                users.push(self.user_at(k, false));
                k += 1;
            }
        }
        Ok(PaginatedUsers { users, total_count: total as i64 })
    }

    /// What the requester behind `claims` is to the user `user_id`.
    pub fn get_role_by_claim(&self, claims: &User, user_id: i32) -> (r: Result<IsWho, AppError>)
        ensures
            r == Ok::<IsWho, AppError>(who_is(*claims, user_id)),
    {
        let is_own_user = claims.user_info.id == user_id;
        let is_moderator = claims.roles.contains_name(RoleName::Moderator);
        let is_admin = claims.roles.contains_name(RoleName::Admin);
        Ok(IsWho::new(is_own_user, is_moderator, is_admin))
    }
}

} // verus!
