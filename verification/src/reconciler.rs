//! Reconciliation of a user's memberships: bringing the stored permissions,
//! or the stored roles and the permissions they grant, to a target with no
//! more writes than needed, all or nothing.

use vstd::prelude::*;
use crate::clock::now_micros;
use crate::errors::AppError;
use crate::links::{
    distinct_pairs, items_in_order, items_of, items_of_user, lemma_items_in_order,
    lemma_with_links, lemma_without_links, link_all, linked, unlink_all, with_links,
    without_links, Membership,
};
use crate::reconcile::{
    find_outside, first_outside, lemma_first_outside_none, lemma_minus, minus, plan_change,
};
use crate::store::{granted_by, grants_in_order, lemma_grants_in_order, AppState, StoreView};

verus! {

/// The rows of a membership table after the items of `user_id` have been
/// brought to `target`: what is stored and not asked for is deleted, then
/// what is asked for and not stored is upserted.
pub open spec fn reconciled(rows: Seq<Membership>, user_id: i32, target: Seq<i32>, now: i64) -> Seq<
    Membership,
> {
    let current = items_in_order(rows, user_id);
    with_links(
        without_links(rows, user_id, minus(current, target)),
        user_id,
        minus(target, current),
        now,
    )
}

/// Reconciling leaves `user_id` with exactly the target, touches no other
/// user, and keeps pairs distinct.
pub proof fn lemma_reconciled(rows: Seq<Membership>, user_id: i32, target: Seq<i32>, now: i64)
    requires
        distinct_pairs(rows),
    ensures
        distinct_pairs(reconciled(rows, user_id, target, now)),
        items_of(reconciled(rows, user_id, target, now), user_id) == target.to_set(),
        forall|a: i32, b: i32|
            #![trigger linked(reconciled(rows, user_id, target, now), a, b)]
            linked(reconciled(rows, user_id, target, now), a, b) <==> (if a == user_id {
                target.contains(b)
            } else {
                linked(rows, a, b)
            }),
{
    let current = items_in_order(rows, user_id);
    let del = minus(current, target);
    let ins = minus(target, current);
    let mid = without_links(rows, user_id, del);
    let out = with_links(mid, user_id, ins, now);
    lemma_items_in_order(rows, user_id);
    lemma_minus(current, target);
    lemma_minus(target, current);
    lemma_without_links(rows, user_id, del);
    lemma_with_links(mid, user_id, ins, now);
    assert forall|a: i32, b: i32| linked(out, a, b) <==> (if a == user_id {
        target.contains(b)
    } else {
        linked(rows, a, b)
    }) by {
        assert(linked(out, a, b) <==> (linked(mid, a, b) || (a == user_id && ins.contains(b))));
        assert(linked(mid, a, b) <==> (linked(rows, a, b) && !(a == user_id && del.contains(b))));
        assert(current.contains(b) <==> linked(rows, user_id, b));
        assert(del.contains(b) <==> (current.contains(b) && !target.contains(b)));
        assert(ins.contains(b) <==> (target.contains(b) && !current.contains(b)));
    }
    assert(items_of(out, user_id) =~= target.to_set());
}

/// Reconciling a table whose rows for `user_id` already are the target
/// changes nothing.
pub proof fn lemma_reconciled_settled(rows: Seq<Membership>, user_id: i32, target: Seq<i32>, now: i64)
    requires
        distinct_pairs(rows),
        items_of(rows, user_id) == target.to_set(),
    ensures
        reconciled(rows, user_id, target, now) == rows,
{
    let current = items_in_order(rows, user_id);
    let del = minus(current, target);
    let ins = minus(target, current);
    lemma_items_in_order(rows, user_id);
    lemma_minus(current, target);
    lemma_minus(target, current);
    assert forall|b: i32| current.contains(b) <==> target.contains(b) by {
        assert(current.contains(b) <==> linked(rows, user_id, b));
        assert(items_of(rows, user_id).contains(b) <==> linked(rows, user_id, b));
        assert(target.to_set().contains(b) <==> target.contains(b));
    }
    if del.len() > 0 {
        assert(del.contains(del[0]));
    }
    if ins.len() > 0 {
        assert(ins.contains(ins[0]));
    }
}

impl StoreView {
    /// The first requested permission that the user's roles do not admit.
    pub open spec fn first_refused(self, user_id: i32, ids: Seq<i32>) -> Option<i32> {
        first_outside(ids, self.allowed_permissions(user_id))
    }

    /// Every requested permission is one that the user's roles admit.
    pub open spec fn admits_permissions(self, user_id: i32, ids: Seq<i32>) -> bool {
        first_outside(ids, self.allowed_permissions(user_id)).is_none()
    }

    /// The store after the user's permissions have been brought to `ids`.
    pub open spec fn with_permissions(self, user_id: i32, ids: Seq<i32>, now: i64) -> StoreView {
        StoreView { user_permissions: reconciled(self.user_permissions, user_id, ids, now), ..self }
    }

    /// The store after the user's roles have been brought to `role_ids` and
    /// the user's permissions to what those roles grant.
    pub open spec fn with_roles(self, user_id: i32, role_ids: Seq<i32>, now: i64) -> StoreView {
        StoreView {
            user_roles: reconciled(self.user_roles, user_id, role_ids, now),
            user_permissions: reconciled(
                self.user_permissions,
                user_id,
                grants_in_order(self.role_permissions, role_ids.to_set()),
                now,
            ),
            ..self
        }
    }

    /// Two stores with the same users table have the same users.
    pub proof fn lemma_same_users(self, other: StoreView)
        requires
            self.users == other.users,
        ensures
            forall|id: i32| #[trigger] self.has_user(id) == other.has_user(id),
    {
        assert forall|id: i32| #[trigger] self.has_user(id) == other.has_user(id) by {
            if self.has_user(id) {
                let i = choose|i: int| 0 <= i < self.users.len() && (#[trigger] self.users[i]).id == id;
                assert(other.users[i].id == id);
            }
            if other.has_user(id) {
                let i = choose|i: int|
                    0 <= i < other.users.len() && (#[trigger] other.users[i]).id == id;
                assert(self.users[i].id == id);
            }
        }
    }

    /// A user for whom some permission is admitted holds a role, and so is a
    /// user of the store.
    pub proof fn lemma_admitted_user_exists(self, user_id: i32, ids: Seq<i32>)
        requires
            self.wf(),
            self.admits_permissions(user_id, ids),
            ids.len() > 0,
        ensures
            self.has_user(user_id),
    {
        lemma_first_outside_none(ids, self.allowed_permissions(user_id));
        let p = ids[0];
        assert(self.allowed_permissions(user_id).contains(p));
        let k = choose|k: int|
            0 <= k < self.role_permissions.len() && (#[trigger] self.role_permissions[k]).permission_id
                == p && self.role_ids(user_id).contains(self.role_permissions[k].role_id);
        let role = self.role_permissions[k].role_id;
        assert(linked(self.user_roles, user_id, role));
        let j = choose|j: int|
            0 <= j < self.user_roles.len() && (#[trigger] self.user_roles[j]).user_id == user_id
                && self.user_roles[j].item_id == role;
        assert(self.has_user(self.user_roles[j].user_id));
    }

    /// After the reconciliation of permissions the user holds exactly the
    /// requested permissions; no other user and no role is touched.
    pub proof fn lemma_with_permissions(self, user_id: i32, ids: Seq<i32>, now: i64)
        requires
            self.wf(),
            self.admits_permissions(user_id, ids),
        ensures
            self.with_permissions(user_id, ids, now).wf(),
            self.with_permissions(user_id, ids, now).permission_ids(user_id) == ids.to_set(),
            forall|other: i32|
                other != user_id ==> #[trigger] self.with_permissions(
                    user_id,
                    ids,
                    now,
                ).permission_ids(other) == self.permission_ids(other),
    {
        let post = self.with_permissions(user_id, ids, now);
        self.lemma_same_users(post);
        lemma_reconciled(self.user_permissions, user_id, ids, now);
        if ids.len() > 0 {
            self.lemma_admitted_user_exists(user_id, ids);
        }
        assert forall|k: int| 0 <= k < post.user_permissions.len() implies post.has_user(
            (#[trigger] post.user_permissions[k]).user_id,
        ) by {
            let row = post.user_permissions[k];
            assert(linked(post.user_permissions, row.user_id, row.item_id));
            if row.user_id == user_id {
                assert(ids.contains(row.item_id));
            } else {
                assert(linked(self.user_permissions, row.user_id, row.item_id));
                let j = choose|j: int|
                    0 <= j < self.user_permissions.len() && (
                    #[trigger] self.user_permissions[j]).user_id == row.user_id
                        && self.user_permissions[j].item_id == row.item_id;
                assert(self.has_user(self.user_permissions[j].user_id));
            }
        }
        assert forall|k: int| 0 <= k < post.user_roles.len() implies post.has_user(
            (#[trigger] post.user_roles[k]).user_id,
        ) by {
            assert(self.has_user(self.user_roles[k].user_id));
        }
        assert forall|other: i32| other != user_id implies #[trigger] post.permission_ids(other)
            == self.permission_ids(other) by {
            assert(post.permission_ids(other) =~= self.permission_ids(other));
        }
    }

    /// Reconciling permissions twice with the same target writes nothing the
    /// second time.
    pub proof fn lemma_update_permissions_idempotent(
        self,
        user_id: i32,
        ids: Seq<i32>,
        first: i64,
        second: i64,
    )
        requires
            self.wf(),
            self.admits_permissions(user_id, ids),
        ensures
            self.with_permissions(user_id, ids, first).admits_permissions(user_id, ids),
            self.with_permissions(user_id, ids, first).with_permissions(user_id, ids, second)
                == self.with_permissions(user_id, ids, first),
    {
        let once = self.with_permissions(user_id, ids, first);
        self.lemma_with_permissions(user_id, ids, first);
        assert(once.allowed_permissions(user_id) == self.allowed_permissions(user_id));
        lemma_reconciled_settled(once.user_permissions, user_id, ids, second);
    }

    /// After the reconciliation of roles the user holds exactly the requested
    /// roles, and every permission stored for the user is one that those
    /// roles grant; no other user is touched.
    pub proof fn lemma_with_roles(self, user_id: i32, role_ids: Seq<i32>, now: i64)
        requires
            self.wf(),
            self.has_user(user_id),
        ensures
            self.with_roles(user_id, role_ids, now).wf(),
            self.with_roles(user_id, role_ids, now).role_ids(user_id) == role_ids.to_set(),
            self.with_roles(user_id, role_ids, now).permission_ids(user_id) == self.with_roles(
                user_id,
                role_ids,
                now,
            ).allowed_permissions(user_id),
            forall|other: i32|
                other != user_id ==> #[trigger] self.with_roles(user_id, role_ids, now).role_ids(
                    other,
                ) == self.role_ids(other),
            forall|other: i32|
                other != user_id ==> #[trigger] self.with_roles(
                    user_id,
                    role_ids,
                    now,
                ).permission_ids(other) == self.permission_ids(other),
    {
        let post = self.with_roles(user_id, role_ids, now);
        let grants = grants_in_order(self.role_permissions, role_ids.to_set());
        self.lemma_same_users(post);
        lemma_reconciled(self.user_roles, user_id, role_ids, now);
        lemma_reconciled(self.user_permissions, user_id, grants, now);
        lemma_grants_in_order(self.role_permissions, role_ids.to_set());
        assert forall|k: int| 0 <= k < post.user_permissions.len() implies post.has_user(
            (#[trigger] post.user_permissions[k]).user_id,
        ) by {
            let row = post.user_permissions[k];
            assert(linked(post.user_permissions, row.user_id, row.item_id));
            if row.user_id != user_id {
                assert(linked(self.user_permissions, row.user_id, row.item_id));
                let j = choose|j: int|
                    0 <= j < self.user_permissions.len() && (
                    #[trigger] self.user_permissions[j]).user_id == row.user_id
                        && self.user_permissions[j].item_id == row.item_id;
                assert(self.has_user(self.user_permissions[j].user_id));
            }
        }
        assert forall|k: int| 0 <= k < post.user_roles.len() implies post.has_user(
            (#[trigger] post.user_roles[k]).user_id,
        ) by {
            let row = post.user_roles[k];
            assert(linked(post.user_roles, row.user_id, row.item_id));
            if row.user_id != user_id {
                assert(linked(self.user_roles, row.user_id, row.item_id));
                let j = choose|j: int|
                    0 <= j < self.user_roles.len() && (#[trigger] self.user_roles[j]).user_id
                        == row.user_id && self.user_roles[j].item_id == row.item_id;
                assert(self.has_user(self.user_roles[j].user_id));
            }
        }
        assert forall|other: i32| other != user_id implies #[trigger] post.role_ids(other)
            == self.role_ids(other) by {
            assert(post.role_ids(other) =~= self.role_ids(other));
        }
        assert forall|other: i32| other != user_id implies #[trigger] post.permission_ids(other)
            == self.permission_ids(other) by {
            assert(post.permission_ids(other) =~= self.permission_ids(other));
        }
    }
}

impl AppState {
    /// Brings the permissions stored for `user_id` to `permission_ids`,
    /// writing rows at the time `now`. Fails with `BadRequest`, and writes
    /// nothing, exactly when some requested permission is not admitted by
    /// the user's current roles.
    pub fn update_permissions_at(&mut self, permission_ids: Vec<i32>, user_id: i32, now: i64) -> (r:
        Result<(), AppError>)
        requires
            old(self)@.wf(),
        ensures
            final(self)@.wf(),
            match r {
                Ok(_) => old(self)@.admits_permissions(user_id, permission_ids@) && final(self)@
                    == old(self)@.with_permissions(user_id, permission_ids@, now),
                Err(e) => old(self)@.first_refused(user_id, permission_ids@) matches Some(id)
                    && e.refused_permission(id, user_id) && *final(self) == *old(self),
            },
    {
        let role_ids = items_of_user(&self.user_roles, user_id);
        let allowed = granted_by(&self.role_permissions, &role_ids);
        proof {
            lemma_items_in_order(self.user_roles@, user_id);
        }
        match find_outside(&permission_ids, &allowed) {
            Some(id) => {
                return Err(AppError::permission_refused(id, user_id));
            },
            None => {},
        }
        proof {
            self@.lemma_with_permissions(user_id, permission_ids@, now);
        }
        let current = items_of_user(&self.user_permissions, user_id);
        let change = plan_change(&current, &permission_ids);
        unlink_all(&mut self.user_permissions, user_id, &change.to_delete);
        link_all(&mut self.user_permissions, user_id, &change.to_insert, now);
        Ok(())
    }

    /// Brings the permissions stored for `user_id` to `permission_ids` at
    /// the current time.
    pub fn update_permissions(&mut self, permission_ids: Vec<i32>, user_id: i32) -> (r: Result<
        (),
        AppError,
    >)
        requires
            old(self)@.wf(),
        ensures
            final(self)@.wf(),
            match r {
                Ok(_) => old(self)@.admits_permissions(user_id, permission_ids@) && exists|now: i64|
                    final(self)@ == #[trigger] old(self)@.with_permissions(
                        user_id,
                        permission_ids@,
                        now,
                    ),
                Err(e) => old(self)@.first_refused(user_id, permission_ids@) matches Some(id)
                    && e.refused_permission(id, user_id) && *final(self) == *old(self),
            },
    {
        let now = now_micros();
        self.update_permissions_at(permission_ids, user_id, now)
    }

    /// Brings the roles of `user_id` to `role_ids` and the stored permissions
    /// to exactly what the new roles grant, writing rows at the time `now`.
    /// Permissions that no new role grants are deleted, whoever granted them.
    /// Fails with `NotFound`, and writes nothing, exactly when the store has
    /// no such user.
    pub fn update_roles_at(&mut self, role_ids: Vec<i32>, user_id: i32, now: i64) -> (r: Result<
        (),
        AppError,
    >)
        requires
            old(self)@.wf(),
        ensures
            final(self)@.wf(),
            match r {
                Ok(_) => old(self)@.has_user(user_id) && final(self)@ == old(self)@.with_roles(
                    user_id,
                    role_ids@,
                    now,
                ),
                Err(e) => !old(self)@.has_user(user_id) && e.missing_id(user_id) && *final(self)
                    == *old(self),
            },
    {
        if self.find_user(user_id).is_none() {
            return Err(AppError::user_id_not_found(user_id));
        }
        proof {
            self@.lemma_with_roles(user_id, role_ids@, now);
        }
        let old_permissions = items_of_user(&self.user_permissions, user_id);
        let current_roles = items_of_user(&self.user_roles, user_id);
        let role_change = plan_change(&current_roles, &role_ids);
        unlink_all(&mut self.user_roles, user_id, &role_change.to_delete);
        link_all(&mut self.user_roles, user_id, &role_change.to_insert, now);
        let new_permissions = granted_by(&self.role_permissions, &role_ids);
        let permission_change = plan_change(&old_permissions, &new_permissions);
        unlink_all(&mut self.user_permissions, user_id, &permission_change.to_delete);
        link_all(&mut self.user_permissions, user_id, &permission_change.to_insert, now);
        Ok(())
    }

    /// Brings the roles of `user_id` to `role_ids` at the current time.
    pub fn update_roles(&mut self, role_ids: Vec<i32>, user_id: i32) -> (r: Result<(), AppError>)
        requires
            old(self)@.wf(),
        ensures
            final(self)@.wf(),
            match r {
                Ok(_) => old(self)@.has_user(user_id) && exists|now: i64|
                    final(self)@ == #[trigger] old(self)@.with_roles(user_id, role_ids@, now),
                Err(e) => !old(self)@.has_user(user_id) && e.missing_id(user_id) && *final(self)
                    == *old(self),
            },
    {
        let now = now_micros();
        self.update_roles_at(role_ids, user_id, now)
    }
}

} // verus!
