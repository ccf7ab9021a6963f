//! The user service: signup, deletion, update under the authorization
//! rule, and the credential check of sign-in.

use vstd::prelude::*;
use crate::clock::now_micros;
use crate::credentials::{digest_accepts, digest_check, hash_password, verify_password};
use crate::dto::{CreateUser, PermissionIn, UpdateUser, User};
use crate::entity::{UserInfo, VecExtensions};
use crate::errors::AppError;
use crate::links::{
    items_in_order, items_of_user, lemma_items_in_order, lemma_with_links, lemma_without_links,
    link_all, linked, unlink_all, with_links, without_links,
};
use crate::store::{
    granted, granted_by, grants_in_order, lemma_grants_in_order, AppState, StoreView,
};
use crate::text::owned;

verus! {

/// The role that every user gets at signup.
pub const DEFAULT_ROLE_ID: i32 = 1;

/// The roles of a user who has just signed up.
pub open spec fn default_roles() -> Set<i32> {
    seq![DEFAULT_ROLE_ID].to_set()
}

impl StoreView {
    /// `post` is this store after `info` has been appended as a new user
    /// who holds `roles` and `permissions`, with membership rows written at
    /// the time `now`.
    pub open spec fn user_added(
        self,
        post: StoreView,
        info: UserInfo,
        roles: Seq<i32>,
        permissions: Seq<i32>,
        now: i64,
    ) -> bool {
        &&& info.id >= self.next_user_id
        &&& post.users == self.users.push(info)
        &&& post.next_user_id == info.id + 1
        &&& post.user_roles == with_links(self.user_roles, info.id, roles, now)
        &&& post.user_permissions == with_links(self.user_permissions, info.id, permissions, now)
        &&& post.roles == self.roles
        &&& post.permissions == self.permissions
        &&& post.role_permissions == self.role_permissions
    }

    /// `post` is this store after `info` has signed up at the time `now`:
    /// the user is appended under the next id, holds the default role, and
    /// has the permissions of that role materialized.
    pub open spec fn user_created(self, post: StoreView, info: UserInfo, now: i64) -> bool {
        &&& info.id == self.next_user_id
        &&& info.created_at == now
        &&& info.updated_at == now
        &&& self.user_added(
            post,
            info,
            seq![DEFAULT_ROLE_ID],
            grants_in_order(self.role_permissions, default_roles()),
            now,
        )
    }

    /// The store after the user and every membership row of the user have
    /// been deleted.
    pub open spec fn without_user(self, user_id: i32) -> StoreView {
        StoreView {
            users: self.users.remove(self.user_index(user_id)),
            user_roles: without_links(
                self.user_roles,
                user_id,
                items_in_order(self.user_roles, user_id),
            ),
            user_permissions: without_links(
                self.user_permissions,
                user_id,
                items_in_order(self.user_permissions, user_id),
            ),
            ..self
        }
    }

    /// Another user than `user_id` has this username.
    pub open spec fn name_taken_by_other(self, user_id: i32, name: Option<String>) -> bool {
        match name {
            Some(n) => exists|k: int|
                0 <= k < self.users.len() && (#[trigger] self.users[k]).username@ == n@
                    && self.users[k].id != user_id,
            None => false,
        }
    }

    /// `post` is this store after the row of `user_id` got the username
    /// asked for, if one was, and `updated_at` set to `now`. The digest of
    /// the row is not constrained here.
    pub open spec fn info_updated(
        self,
        post: StoreView,
        user_id: i32,
        username: Option<String>,
        now: i64,
    ) -> bool {
        let i = self.user_index(user_id);
        &&& post == StoreView { users: post.users, ..self }
        &&& post.users.len() == self.users.len()
        &&& forall|k: int|
            0 <= k < self.users.len() && k != i ==> #[trigger] post.users[k] == self.users[k]
        &&& post.users[i].id == user_id
        &&& post.users[i].created_at == self.users[i].created_at
        &&& post.users[i].updated_at == now
        &&& post.users[i].username@ == match username {
            Some(n) => n@,
            None => self.users[i].username@,
        }
    }

    /// The username names a user whose stored digest accepts the password.
    pub open spec fn authenticates(self, username: Seq<char>, password: Seq<char>) -> bool {
        self.has_username(username) && digest_accepts(
            self.users[self.username_index(username)].password@,
            password,
        )
    }

    /// What `update_user` does for a requester who is the user: only the
    /// username and the digest of the user's own row change.
    pub open spec fn own_update(
        self,
        post: StoreView,
        user_id: i32,
        input: UpdateUser,
        r: Result<User, AppError>,
    ) -> bool {
        let i = self.user_index(user_id);
        match r {
            Ok(user) => {
                &&& !self.name_taken_by_other(user_id, input.username)
                &&& exists|now: i64| #[trigger] self.info_updated(post, user_id, input.username, now)
                &&& match input.password {
                    Some(p) => digest_accepts(post.users[i].password@, p@),
                    None => post.users[i].password@ == self.users[i].password@,
                }
                &&& post.shows(user, i, false)
            },
            Err(e) => {
                &&& post == self
                &&& (e is PasswordHashError && input.password is Some) || (e is DatabaseError
                    && e.detail() == "username is taken by another user"@
                    && self.name_taken_by_other(user_id, input.username))
            },
        }
    }

    /// What the reconciliation of the permissions asked for in an update
    /// does to this store, and what the update returns after it.
    pub open spec fn permissions_step(
        self,
        post: StoreView,
        user_id: i32,
        permissions: Option<Vec<PermissionIn>>,
        r: Result<User, AppError>,
    ) -> bool {
        match permissions {
            None => post == self && (r matches Ok(user) && post.shows(
                user,
                post.user_index(user_id),
                true,
            )),
            Some(permissions) => if self.admits_permissions(user_id, permissions.ids()) {
                &&& exists|now: i64|
                    post == #[trigger] self.with_permissions(user_id, permissions.ids(), now)
                &&& (r matches Ok(user) && post.shows(user, post.user_index(user_id), true))
            } else {
                post == self && (r matches Err(e) && self.first_refused(
                    user_id,
                    permissions.ids(),
                ) matches Some(id) && e.refused_permission(id, user_id))
            },
        }
    }

    /// What `update_user` does for a moderator who is neither the user nor an
    /// admin: only the permissions of the user change.
    pub open spec fn moderator_update(
        self,
        post: StoreView,
        user_id: i32,
        input: UpdateUser,
        r: Result<User, AppError>,
    ) -> bool {
        self.permissions_step(post, user_id, input.permissions, r)
    }

    /// What `update_user` does for an admin who is not the user: the roles
    /// are reconciled first, then the permissions.
    pub open spec fn admin_update(
        self,
        post: StoreView,
        user_id: i32,
        input: UpdateUser,
        r: Result<User, AppError>,
    ) -> bool {
        match input.roles {
            None => self.permissions_step(post, user_id, input.permissions, r),
            Some(roles) => exists|now: i64|
                (#[trigger] self.with_roles(user_id, roles.ids(), now)).permissions_step(
                    post,
                    user_id,
                    input.permissions,
                    r,
                ),
        }
    }

    /// The ids of two users tables that agree row by row name the same
    /// users.
    pub proof fn lemma_same_ids(self, other: StoreView)
        requires
            self.users.len() == other.users.len(),
            forall|k: int| 0 <= k < self.users.len() ==> (#[trigger] self.users[k]).id == other.users[k].id,
        ensures
            forall|id: i32| #[trigger] self.has_user(id) == other.has_user(id),
    {
        assert forall|id: i32| #[trigger] self.has_user(id) == other.has_user(id) by {
            if self.has_user(id) {
                let i = choose|i: int| 0 <= i < self.users.len() && (#[trigger] self.users[i]).id == id;
                assert(other.users[i].id == id);
            }
            if other.has_user(id) {
                let i = choose|i: int|
                    0 <= i < other.users.len() && (#[trigger] other.users[i]).id == id;
                assert(self.users[i].id == id);
            }
        }
    }

    /// Adding a user keeps the store well formed; the new user is found by id
    /// and by username and holds exactly the given roles and permissions, and
    /// no other user is touched.
    pub proof fn lemma_user_added(
        self,
        post: StoreView,
        info: UserInfo,
        roles: Seq<i32>,
        permissions: Seq<i32>,
        now: i64,
    )
        requires
            self.wf(),
            !self.has_username(info.username@),
            self.user_added(post, info, roles, permissions, now),
        ensures
            post.wf(),
            !self.has_user(info.id),
            post.has_user(info.id),
            post.user_index(info.id) == self.users.len(),
            post.has_username(info.username@),
            post.username_index(info.username@) == self.users.len(),
            post.role_ids(info.id) == roles.to_set(),
            post.permission_ids(info.id) == permissions.to_set(),
            forall|other: i32|
                other != info.id ==> #[trigger] post.role_ids(other) == self.role_ids(other),
            forall|other: i32|
                other != info.id ==> #[trigger] post.permission_ids(other) == self.permission_ids(
                    other,
                ),
            forall|other: i32| self.has_user(other) ==> #[trigger] post.has_user(other),
    {
        let n = self.users.len() as int;
        let id = info.id;
        lemma_with_links(self.user_roles, id, roles, now);
        lemma_with_links(self.user_permissions, id, permissions, now);
        assert(post.users[n] == info);
        assert forall|k: int| 0 <= k < n implies #[trigger] post.users[k] == self.users[k] by {}
        assert forall|other: i32| self.has_user(other) implies #[trigger] post.has_user(other) by {
            let i = choose|i: int| 0 <= i < self.users.len() && (#[trigger] self.users[i]).id == other;
            assert(post.users[i].id == other);
        }
        if self.has_user(id) {
            let i = choose|i: int| 0 <= i < self.users.len() && (#[trigger] self.users[i]).id == id;
            assert(self.users[i].id < self.next_user_id);
        }
        assert forall|a: i32, b: i32| a == id implies !linked(self.user_roles, a, b) by {
            if linked(self.user_roles, a, b) {
                let j = choose|j: int|
                    0 <= j < self.user_roles.len() && (#[trigger] self.user_roles[j]).user_id == a
                        && self.user_roles[j].item_id == b;
                assert(self.has_user(self.user_roles[j].user_id));
            }
        }
        assert forall|a: i32, b: i32| a == id implies !linked(self.user_permissions, a, b) by {
            if linked(self.user_permissions, a, b) {
                let j = choose|j: int|
                    0 <= j < self.user_permissions.len() && (
                    #[trigger] self.user_permissions[j]).user_id == a
                        && self.user_permissions[j].item_id == b;
                assert(self.has_user(self.user_permissions[j].user_id));
            }
        }
        assert forall|i: int, j: int| 0 <= i < j < post.users.len() implies (
        #[trigger] post.users[i]).id < (#[trigger] post.users[j]).id by {
            assert(post.users[i] == self.users[i]);
            if j < n {
                assert(post.users[j] == self.users[j]);
            }
        }
        assert forall|i: int, j: int| 0 <= i < j < post.users.len() implies (
        #[trigger] post.users[i]).username@ != (#[trigger] post.users[j]).username@ by {
            assert(post.users[i] == self.users[i]);
            if j < n {
                assert(post.users[j] == self.users[j]);
            }
        }
        assert forall|k: int| 0 <= k < post.user_roles.len() implies post.has_user(
            (#[trigger] post.user_roles[k]).user_id,
        ) by {
            let row = post.user_roles[k];
            assert(linked(post.user_roles, row.user_id, row.item_id));
            if row.user_id != id {
                assert(linked(self.user_roles, row.user_id, row.item_id));
                let j = choose|j: int|
                    0 <= j < self.user_roles.len() && (#[trigger] self.user_roles[j]).user_id
                        == row.user_id && self.user_roles[j].item_id == row.item_id;
                assert(self.has_user(self.user_roles[j].user_id));
            }
        }
        assert forall|k: int| 0 <= k < post.user_permissions.len() implies post.has_user(
            (#[trigger] post.user_permissions[k]).user_id,
        ) by {
            let row = post.user_permissions[k];
            assert(linked(post.user_permissions, row.user_id, row.item_id));
            if row.user_id != id {
                assert(linked(self.user_permissions, row.user_id, row.item_id));
                let j = choose|j: int|
                    0 <= j < self.user_permissions.len() && (
                    #[trigger] self.user_permissions[j]).user_id == row.user_id
                        && self.user_permissions[j].item_id == row.item_id;
                assert(self.has_user(self.user_permissions[j].user_id));
            }
        }
        assert(post.wf());
        post.lemma_user_index_is(id, n);
        post.lemma_username_index_is(info.username@, n);
        assert(post.role_ids(id) =~= roles.to_set()) by {
            assert forall|b: i32| post.role_ids(id).contains(b) <==> roles.to_set().contains(b) by {
                assert(linked(post.user_roles, id, b) <==> (linked(self.user_roles, id, b)
                    || roles.contains(b)));
            }
        }
        assert(post.permission_ids(id) =~= permissions.to_set()) by {
            assert forall|b: i32|
                post.permission_ids(id).contains(b) <==> permissions.to_set().contains(b) by {
                assert(linked(post.user_permissions, id, b) <==> (linked(
                    self.user_permissions,
                    id,
                    b,
                ) || permissions.contains(b)));
            }
        }
        assert forall|other: i32| other != id implies #[trigger] post.role_ids(other)
            == self.role_ids(other) by {
            assert forall|b: i32|
                post.role_ids(other).contains(b) <==> self.role_ids(other).contains(b) by {
                assert(linked(post.user_roles, other, b) <==> linked(self.user_roles, other, b));
            }
            assert(post.role_ids(other) =~= self.role_ids(other));
        }
        assert forall|other: i32| other != id implies #[trigger] post.permission_ids(other)
            == self.permission_ids(other) by {
            assert forall|b: i32|
                post.permission_ids(other).contains(b) <==> self.permission_ids(other).contains(
                    b,
                ) by {
                assert(linked(post.user_permissions, other, b) <==> linked(
                    self.user_permissions,
                    other,
                    b,
                ));
            }
            assert(post.permission_ids(other) =~= self.permission_ids(other));
        }
    }

    /// A signup keeps the store well formed; the new user is found by id and
    /// by username, holds the default role and the permissions that it
    /// grants, and no other user is touched.
    pub proof fn lemma_user_created(self, post: StoreView, info: UserInfo, now: i64)
        requires
            self.wf(),
            !self.has_username(info.username@),
            self.user_created(post, info, now),
        ensures
            post.wf(),
            !self.has_user(info.id),
            post.has_user(info.id),
            post.user_index(info.id) == self.users.len(),
            post.has_username(info.username@),
            post.username_index(info.username@) == self.users.len(),
            post.role_ids(info.id) == default_roles(),
            post.permission_ids(info.id) == granted(self.role_permissions, default_roles()),
            forall|other: i32|
                other != info.id ==> #[trigger] post.role_ids(other) == self.role_ids(other),
            forall|other: i32|
                other != info.id ==> #[trigger] post.permission_ids(other) == self.permission_ids(
                    other,
                ),
            forall|other: i32| self.has_user(other) ==> #[trigger] post.has_user(other),
    {
        self.lemma_user_added(
            post,
            info,
            seq![DEFAULT_ROLE_ID],
            grants_in_order(self.role_permissions, default_roles()),
            now,
        );
        lemma_grants_in_order(self.role_permissions, default_roles());
    }

    /// A deletion keeps the store well formed and cascades: the user is no
    /// longer found and holds no role and no permission; every other user
    /// stays with what they held.
    pub proof fn lemma_without_user(self, user_id: i32)
        requires
            self.wf(),
            self.has_user(user_id),
        ensures
            self.without_user(user_id).wf(),
            !self.without_user(user_id).has_user(user_id),
            self.without_user(user_id).role_ids(user_id) == Set::<i32>::empty(),
            self.without_user(user_id).permission_ids(user_id) == Set::<i32>::empty(),
            forall|b: i32| !#[trigger] linked(self.without_user(user_id).user_roles, user_id, b),
            forall|b: i32|
                !#[trigger] linked(self.without_user(user_id).user_permissions, user_id, b),
            forall|other: i32|
                other != user_id ==> #[trigger] self.without_user(user_id).has_user(other)
                    == self.has_user(other),
            forall|other: i32|
                other != user_id ==> #[trigger] self.without_user(user_id).role_ids(other)
                    == self.role_ids(other),
            forall|other: i32|
                other != user_id ==> #[trigger] self.without_user(user_id).permission_ids(other)
                    == self.permission_ids(other),
    {
        let post = self.without_user(user_id);
        let i = self.user_index(user_id);
        let roles = items_in_order(self.user_roles, user_id);
        let permissions = items_in_order(self.user_permissions, user_id);
        lemma_items_in_order(self.user_roles, user_id);
        lemma_items_in_order(self.user_permissions, user_id);
        lemma_without_links(self.user_roles, user_id, roles);
        lemma_without_links(self.user_permissions, user_id, permissions);
        assert forall|k: int| 0 <= k < post.users.len() implies #[trigger] post.users[k]
            == self.users[if k < i {
            k
        } else {
            k + 1
        }] by {}
        assert forall|other: i32| other != user_id implies #[trigger] post.has_user(other)
            == self.has_user(other) by {
            if self.has_user(other) {
                let k = choose|k: int| 0 <= k < self.users.len() && (#[trigger] self.users[k]).id == other;
                if k < i {
                    assert(post.users[k].id == other);
                } else {
                    assert(post.users[k - 1].id == other);
                }
            }
            if post.has_user(other) {
                let k = choose|k: int| 0 <= k < post.users.len() && (#[trigger] post.users[k]).id == other;
                let m = if k < i {
                    k
                } else {
                    k + 1
                };
                assert(self.users[m].id == other);
            }
        }
        if post.has_user(user_id) {
            let k = choose|k: int| 0 <= k < post.users.len() && (#[trigger] post.users[k]).id == user_id;
            let m = if k < i {
                k
            } else {
                k + 1
            };
            assert(self.users[m].id == user_id);
            if m < i {
                assert(self.users[m].id < self.users[i].id);
            } else {
                assert(self.users[i].id < self.users[m].id);
            }
        }
        assert forall|p: int, q: int| 0 <= p < q < post.users.len() implies (
        #[trigger] post.users[p]).id < (#[trigger] post.users[q]).id && post.users[p].username@
            != post.users[q].username@ by {
            let pm = if p < i {
                p
            } else {
                p + 1
            };
            let qm = if q < i {
                q
            } else {
                q + 1
            };
            assert(post.users[p] == self.users[pm] && post.users[q] == self.users[qm]);
            assert(self.users[pm].id < self.users[qm].id);
            assert(self.users[pm].username@ != self.users[qm].username@);
        }
        assert forall|p: int| 0 <= p < post.users.len() implies (#[trigger] post.users[p]).id
            < post.next_user_id by {
            let pm = if p < i {
                p
            } else {
                p + 1
            };
            assert(post.users[p] == self.users[pm]);
        }
        assert forall|k: int| 0 <= k < post.user_roles.len() implies post.has_user(
            (#[trigger] post.user_roles[k]).user_id,
        ) by {
            let row = post.user_roles[k];
            assert(linked(post.user_roles, row.user_id, row.item_id));
            assert(linked(self.user_roles, row.user_id, row.item_id));
            assert(roles.contains(row.item_id) <==> linked(self.user_roles, user_id, row.item_id));
            let j = choose|j: int|
                0 <= j < self.user_roles.len() && (#[trigger] self.user_roles[j]).user_id
                    == row.user_id && self.user_roles[j].item_id == row.item_id;
            assert(self.has_user(self.user_roles[j].user_id));
        }
        assert forall|k: int| 0 <= k < post.user_permissions.len() implies post.has_user(
            (#[trigger] post.user_permissions[k]).user_id,
        ) by {
            let row = post.user_permissions[k];
            assert(linked(post.user_permissions, row.user_id, row.item_id));
            assert(linked(self.user_permissions, row.user_id, row.item_id));
            assert(permissions.contains(row.item_id) <==> linked(
                self.user_permissions,
                user_id,
                row.item_id,
            ));
            let j = choose|j: int|
                0 <= j < self.user_permissions.len() && (
                #[trigger] self.user_permissions[j]).user_id == row.user_id
                    && self.user_permissions[j].item_id == row.item_id;
            assert(self.has_user(self.user_permissions[j].user_id));
        }
        assert forall|b: i32| !#[trigger] linked(post.user_roles, user_id, b) by {
            assert(roles.contains(b) <==> linked(self.user_roles, user_id, b));
        }
        assert forall|b: i32| !#[trigger] linked(post.user_permissions, user_id, b) by {
            assert(permissions.contains(b) <==> linked(self.user_permissions, user_id, b));
        }
        assert(post.role_ids(user_id) =~= Set::<i32>::empty());
        assert(post.permission_ids(user_id) =~= Set::<i32>::empty());
        assert forall|other: i32| other != user_id implies #[trigger] post.role_ids(other)
            == self.role_ids(other) by {
            assert(post.role_ids(other) =~= self.role_ids(other));
        }
        assert forall|other: i32| other != user_id implies #[trigger] post.permission_ids(other)
            == self.permission_ids(other) by {
            assert(post.permission_ids(other) =~= self.permission_ids(other));
        }
    }

    /// Round trip: a user who signed up with a digest of their password is
    /// authenticated by that username and password.
    pub proof fn lemma_created_user_authenticates(
        self,
        post: StoreView,
        info: UserInfo,
        now: i64,
        password: Seq<char>,
    )
        requires
            self.wf(),
            !self.has_username(info.username@),
            self.user_created(post, info, now),
            digest_accepts(info.password@, password),
        ensures
            post.authenticates(info.username@, password),
    {
        self.lemma_user_created(post, info, now);
    }

    /// Duplicate signup: once a user has signed up, the username is taken,
    /// which is exactly when a signup fails with `UserExisted`.
    pub proof fn lemma_created_username_is_taken(self, post: StoreView, info: UserInfo, now: i64)
        requires
            self.wf(),
            !self.has_username(info.username@),
            self.user_created(post, info, now),
        ensures
            post.has_username(info.username@),
    {
        self.lemma_user_created(post, info, now);
    }
}

/// Admits a user whose password the stored digest accepted, and refuses the
/// others as `Unauthorized`.
pub fn let_in(user: User, accepted: bool) -> (r: Result<User, AppError>)
    ensures
        accepted ==> r == Ok::<User, AppError>(user),
        !accepted ==> (r matches Err(e) && e is Unauthorized && e.detail() == "Invalid password"@),
{
    if accepted {
        Ok(user)
    } else {
        Err(AppError::Unauthorized(owned("Invalid password")))
    }
}

impl AppState {
    /// Appends a user who is stored elsewhere, with the roles and permissions
    /// held there; membership rows are written at the time `now`. Fails with
    /// `UserExisted` exactly when the username is taken, and with
    /// `DatabaseError` when the id does not lie above every id given out so
    /// far; a failure writes nothing.
    pub fn restore_user(
        &mut self,
        info: UserInfo,
        role_ids: &Vec<i32>,
        permission_ids: &Vec<i32>,
        now: i64,
    ) -> (r: Result<(), AppError>)
        requires
            old(self)@.wf(),
        ensures
            final(self)@.wf(),
            match r {
                Ok(_) => {
                    &&& !old(self)@.has_username(info.username@)
                    &&& old(self)@.user_added(
                        final(self)@,
                        info,
                        role_ids@,
                        permission_ids@,
                        now,
                    )
                    &&& final(self)@.role_ids(info.id) == role_ids@.to_set()
                    &&& final(self)@.permission_ids(info.id) == permission_ids@.to_set()
                },
                Err(e) => {
                    &&& *final(self) == *old(self)
                    &&& if old(self)@.has_username(info.username@) {
                        e.taken_name(info.username@)
                    } else {
                        info.id < old(self)@.next_user_id && e is DatabaseError && e.detail()
                            == "user id is not above the ids in use"@
                    }
                },
            },
    {
        if self.find_username(info.username.as_str()).is_some() {
            return Err(
                AppError::username_taken(info.username.as_str()),
            );
        }
        let id: i32 = info.id;
        let id_wide: i64 = id as i64;
        if id_wide < self.next_user_id {
            return Err(AppError::DatabaseError(owned("user id is not above the ids in use")));
        }
        let ghost stored = info;
        self.users.push(info);
        self.next_user_id = id_wide + 1;
        link_all(&mut self.user_roles, id, role_ids, now);
        link_all(&mut self.user_permissions, id, permission_ids, now);
        proof {
            old(self)@.lemma_user_added(self@, stored, role_ids@, permission_ids@, now);
        }
        Ok(())
    }

    /// Inserts a user with the given digest at the time `now`, with the
    /// default role and the permissions it grants. Fails with `UserExisted`
    /// exactly when the username is taken, and with `DatabaseError` when the
    /// ids are used up; a failure writes nothing.
    pub fn insert_user(&mut self, username: &str, digest: String, now: i64) -> (r: Result<
        User,
        AppError,
    >)
        requires
            old(self)@.wf(),
        ensures
            final(self)@.wf(),
            match r {
                Ok(user) => {
                    &&& !old(self)@.has_username(username@)
                    &&& old(self)@.next_user_id <= i32::MAX
                    &&& old(self)@.user_created(final(self)@, user.user_info, now)
                    &&& user.user_info.username@ == username@
                    &&& user.user_info.password@ == digest@
                    &&& final(self)@.shows(user, old(self)@.users.len() as int, true)
                },
                Err(e) => {
                    &&& *final(self) == *old(self)
                    &&& if old(self)@.has_username(username@) {
                        e.taken_name(username@)
                    } else {
                        old(self)@.next_user_id > i32::MAX && e is DatabaseError && e.detail()
                            == "user id out of range"@
                    }
                },
            },
    {
        if self.find_username(username).is_some() {
            return Err(
                AppError::username_taken(username),
            );
        }
        if self.next_user_id > 0x7fff_ffff {
            return Err(AppError::DatabaseError(owned("user id out of range")));
        }
        let id: i32 = self.next_user_id as i32;
        let info = UserInfo {
            id,
            username: owned(username),
            password: digest,
            created_at: now,
            updated_at: now,
        };
        let defaults: Vec<i32> = vec![DEFAULT_ROLE_ID];
        assert(defaults@ =~= seq![DEFAULT_ROLE_ID]);
        let grants = granted_by(&self.role_permissions, &defaults);
        match self.restore_user(info, &defaults, &grants, now) {
            Ok(_) => {},
            Err(e) => {
                return Err(e);
            },
        }
        proof {
            old(self)@.lemma_user_created(self@, info, now);
        }
        let user = self.user_at(self.users.len() - 1, true);
        Ok(user)
    }

    /// Signs a user up: refuses a taken username with `UserExisted`, hashes
    /// the password, and inserts the user with the default role.
    pub fn create_user(&mut self, input: CreateUser) -> (r: Result<User, AppError>)
        requires
            old(self)@.wf(),
        ensures
            final(self)@.wf(),
            old(self)@.has_username(input.username@) ==> (r matches Err(e) && e.taken_name(
                input.username@,
            )),
            match r {
                Ok(user) => {
                    &&& !old(self)@.has_username(input.username@)
                    &&& exists|now: i64|
                        #[trigger] old(self)@.user_created(final(self)@, user.user_info, now)
                    &&& user.user_info.username@ == input.username@
                    &&& digest_accepts(user.user_info.password@, input.password@)
                    &&& final(self)@.shows(user, old(self)@.users.len() as int, true)
                    &&& final(self)@.authenticates(input.username@, input.password@)
                },
                Err(e) => {
                    &&& *final(self) == *old(self)
                    &&& if old(self)@.has_username(input.username@) {
                        e.taken_name(input.username@)
                    } else {
                        e is PasswordHashError || (old(self)@.next_user_id > i32::MAX
                            && e is DatabaseError)
                    }
                },
            },
    {
        if self.find_username(input.username.as_str()).is_some() {
            return Err(
                AppError::username_taken(input.username.as_str()),
            );
        }
        let digest = match hash_password(input.password.as_str()) {
            Ok(digest) => digest,
            Err(e) => {
                return Err(e);
            },
        };
        let now = now_micros();
        let r = self.insert_user(input.username.as_str(), digest, now);
        proof {
            if r is Ok {
                old(self)@.lemma_created_user_authenticates(
                    self@,
                    r->Ok_0.user_info,
                    now,
                    input.password@,
                );
            }
        }
        r
    }

    /// Deletes the user and, before it, every membership row of the user.
    /// Fails with `NotFound`, and writes nothing, exactly when the store has
    /// no such user.
    pub fn delete_user(&mut self, user_id: i32) -> (r: Result<(), AppError>)
        requires
            old(self)@.wf(),
        ensures
            final(self)@.wf(),
            match r {
                Ok(_) => old(self)@.has_user(user_id) && final(self)@ == old(self)@.without_user(
                    user_id,
                ) && !final(self)@.has_user(user_id) && final(self)@.role_ids(user_id)
                    == Set::<i32>::empty() && final(self)@.permission_ids(user_id) == Set::<
                    i32,
                >::empty(),
                Err(e) => !old(self)@.has_user(user_id) && e.missing_id(user_id) && *final(self)
                    == *old(self),
            },
    {
        match self.find_user(user_id) {
            None => Err(AppError::user_id_not_found(user_id)),
            Some(i) => {
                proof {
                    self@.lemma_without_user(user_id);
                }
                let roles = items_of_user(&self.user_roles, user_id);
                unlink_all(&mut self.user_roles, user_id, &roles);
                let permissions = items_of_user(&self.user_permissions, user_id);
                unlink_all(&mut self.user_permissions, user_id, &permissions);
                self.users.remove(i);
                Ok(())
            },
        }
    }

    /// Writes the username asked for, if any, and the digest given, if any,
    /// into the row of `user_id` at the time `now`, and returns the user
    /// without the digest. Fails with `NotFound` when the store has no such
    /// user and with `DatabaseError` when another user has the username; a
    /// failure writes nothing.
    pub fn update_user_info(
        &mut self,
        user_id: i32,
        username: Option<String>,
        digest: Option<String>,
        now: i64,
    ) -> (r: Result<User, AppError>)
        requires
            old(self)@.wf(),
        ensures
            final(self)@.wf(),
            match r {
                Ok(user) => {
                    let i = old(self)@.user_index(user_id);
                    &&& old(self)@.has_user(user_id)
                    &&& !old(self)@.name_taken_by_other(user_id, username)
                    &&& old(self)@.info_updated(final(self)@, user_id, username, now)
                    &&& final(self)@.users[i].password@ == match digest {
                        Some(d) => d@,
                        None => old(self)@.users[i].password@,
                    }
                    &&& final(self)@.shows(user, i, false)
                },
                Err(e) => {
                    &&& *final(self) == *old(self)
                    &&& if !old(self)@.has_user(user_id) {
                        e.missing_id(user_id)
                    } else {
                        old(self)@.name_taken_by_other(user_id, username) && e is DatabaseError
                            && e.detail() == "username is taken by another user"@
                    }
                },
            },
    {
        let i = match self.find_user(user_id) {
            Some(i) => i,
            None => {
                return Err(AppError::user_id_not_found(user_id));
            },
        };
        let taken = match &username {
            Some(n) => match self.find_username(n.as_str()) {
                Some(k) => k != i,
                None => false,
            },
            None => false,
        };
        proof {
            if username is Some {
                let n = username->Some_0;
                if self@.has_username(n@) {
                    let k = self@.username_index(n@);
                    if k != i {
                        if self@.users[k].id == user_id {
                            self@.lemma_user_index_is(user_id, k);
                        }
                    }
                    if self@.name_taken_by_other(user_id, username) {
                        let m = choose|m: int|
                            0 <= m < self@.users.len() && (#[trigger] self@.users[m]).username@ == n@
                                && self@.users[m].id != user_id;
                        self@.lemma_username_index_is(n@, m);
                    }
                }
            }
        }
        if taken {
            return Err(AppError::DatabaseError(owned("username is taken by another user")));
        }
        let row = &self.users[i];
        let id = row.id;
        let created_at = row.created_at;
        let new_name = match username {
            Some(n) => n,
            None => row.username.clone(),
        };
        let new_digest = match digest {
            Some(d) => d,
            None => row.password.clone(),
        };
        self.users.set(
            i,
            UserInfo { id, username: new_name, password: new_digest, created_at, updated_at: now },
        );
        proof {
            let pre = old(self)@;
            let post = self@;
            pre.lemma_same_ids(post);
            assert forall|p: int, q: int| 0 <= p < q < post.users.len() implies (
            #[trigger] post.users[p]).id < (#[trigger] post.users[q]).id && post.users[p].username@
                != post.users[q].username@ by {
                assert(pre.users[p].id < pre.users[q].id);
                assert(pre.users[p].username@ != pre.users[q].username@);
                assert(pre.users[p].id == post.users[p].id && pre.users[q].id == post.users[q].id);
            }
            assert forall|p: int| 0 <= p < post.users.len() implies (#[trigger] post.users[p]).id
                < post.next_user_id by {
                assert(pre.users[p].id == post.users[p].id);
            }
            assert forall|k: int| 0 <= k < post.user_roles.len() implies post.has_user(
                (#[trigger] post.user_roles[k]).user_id,
            ) by {
                assert(pre.has_user(pre.user_roles[k].user_id));
            }
            assert forall|k: int| 0 <= k < post.user_permissions.len() implies post.has_user(
                (#[trigger] post.user_permissions[k]).user_id,
            ) by {
                assert(pre.has_user(pre.user_permissions[k].user_id));
            }
            assert(post == StoreView { users: post.users, ..pre });
        }
        Ok(self.user_at(i, false))
    }

    /// Reconciles the permissions that an update asks for, if it asks for
    /// any, and returns the user as stored afterwards.
    pub fn update_user_permissions(&mut self, user_id: i32, permissions: Option<Vec<PermissionIn>>) -> (r:
        Result<User, AppError>)
        requires
            old(self)@.wf(),
            old(self)@.has_user(user_id),
        ensures
            final(self)@.wf(),
            final(self)@.users == old(self)@.users,
            final(self)@.user_roles == old(self)@.user_roles,
            old(self)@.permissions_step(final(self)@, user_id, permissions, r),
    {
        match permissions {
            Some(list) => {
                let ids = list.extract_ids();
                match self.update_permissions(ids, user_id) {
                    Ok(_) => {},
                    Err(e) => {
                        return Err(e);
                    },
                }
            },
            None => {},
        }
        proof {
            old(self)@.lemma_same_users(self@);
        }
        self.get_user_by_id(user_id)
    }

    /// Updates a user under the authorization rule. A requester who is
    /// neither the user nor an admin nor a moderator is refused with
    /// `Forbidden`, whether or not the user exists. The user themself changes
    /// their own username and password and nothing else; an admin changes
    /// roles, then permissions; a moderator who is no admin changes
    /// permissions only.
    pub fn update_user(&mut self, user_id: i32, input: UpdateUser) -> (r: Result<User, AppError>)
        requires
            old(self)@.wf(),
        ensures
            final(self)@.wf(),
            !input.who().may_update() ==> (r matches Err(e) && e is Forbidden && e.detail()
                == "Permission denied"@) && *final(self) == *old(self),
            input.who().may_update() && !old(self)@.has_user(user_id) ==> (r matches Err(e)
                && e.missing_id(user_id)) && *final(self) == *old(self),
            input.who().may_update() && old(self)@.has_user(user_id) ==> if input.is_own_user {
                old(self)@.own_update(final(self)@, user_id, input, r)
            } else if input.is_admin {
                final(self)@.users == old(self)@.users && old(self)@.admin_update(
                    final(self)@,
                    user_id,
                    input,
                    r,
                )
            } else {
                final(self)@.users == old(self)@.users && final(self)@.user_roles == old(
                    self,
                )@.user_roles && old(self)@.moderator_update(final(self)@, user_id, input, r)
            },
    {
        if !input.is_own_user && !input.is_admin && !input.is_moderator {
            return Err(AppError::Forbidden(owned("Permission denied")));
        }
        if self.find_user(user_id).is_none() {
            return Err(AppError::user_id_not_found(user_id));
        }
        if input.is_own_user {
            let digest = match &input.password {
                Some(p) => match hash_password(p.as_str()) {
                    Ok(d) => Some(d),
                    Err(e) => {
                        return Err(e);
                    },
                },
                None => None,
            };
            let now = now_micros();
            let r = self.update_user_info(user_id, input.username, digest, now);
            proof {
                if r is Ok {
                    assert(old(self)@.info_updated(self@, user_id, input.username, now));
                }
            }
            return r;
        }
        if !input.is_admin {
            return self.update_user_permissions(user_id, input.permissions);
        }
        match input.roles {
            Some(list) => {
                let ids = list.extract_ids();
                match self.update_roles(ids, user_id) {
                    Ok(_) => {},
                    Err(e) => {
                        return Err(e);
                    },
                }
                let ghost mid = self@;
                proof {
                    old(self)@.lemma_same_users(mid);
                }
                let r = self.update_user_permissions(user_id, input.permissions);
                proof {
                    let now = choose|now: i64|
                        mid == #[trigger] old(self)@.with_roles(user_id, list.ids(), now);
                    assert(old(self)@.with_roles(user_id, list.ids(), now).permissions_step(
                        self@,
                        user_id,
                        input.permissions,
                        r,
                    ));
                }
                r
            },
            None => self.update_user_permissions(user_id, input.permissions),
        }
    }

    /// Checks the credentials of a sign-in. `NotFound` when no user has the
    /// username; `PasswordHashError` when the stored digest is malformed;
    /// `Unauthorized` when the digest does not accept the password; else the
    /// user, digest included.
    pub fn verify_user(&self, username: &str, password: &str) -> (r: Result<User, AppError>)
        requires
            self@.wf(),
        ensures
            match r {
                Ok(user) => self@.authenticates(username@, password@) && self@.shows(
                    user,
                    self@.username_index(username@),
                    true,
                ),
                Err(e) => !self@.authenticates(username@, password@) && if !self@.has_username(
                    username@,
                ) {
                    e.missing_name(username@)
                } else {
                    match digest_check(
                        password@,
                        self@.users[self@.username_index(username@)].password@,
                    ) {
                        None => e is PasswordHashError,
                        Some(_) => e is Unauthorized && e.detail() == "Invalid password"@,
                    }
                },
            },
    {
        let user = match self.verify_user_by_username(username) {
            Ok(user) => user,
            Err(e) => {
                return Err(e);
            },
        };
        match verify_password(password, user.user_info.password.as_str()) {
            Ok(accepted) => let_in(user, accepted),
            Err(e) => Err(e),
        }
    }
}

} // verus!
