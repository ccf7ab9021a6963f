//! Role coverage: every permission stored for a user is one that the
//! user's current roles grant. Signup, both reconciliations and deletion
//! keep it.

use vstd::prelude::*;
use crate::entity::UserInfo;
use crate::reconcile::lemma_first_outside_none;
use crate::store::StoreView;

verus! {

impl StoreView {
    /// The permissions stored for `user_id` are among those that the
    /// user's roles grant.
    pub open spec fn covers(self, user_id: i32) -> bool {
        self.permission_ids(user_id).subset_of(self.allowed_permissions(user_id))
    }

    /// Every user's stored permissions are covered by the user's roles.
    pub open spec fn covered(self) -> bool {
        forall|user_id: i32| #[trigger] self.covers(user_id)
    }

    /// Permissions that were admitted are covered by the roles.
    pub proof fn lemma_admitted_permissions_are_covered(self, user_id: i32, ids: Seq<i32>, now: i64)
        requires
            self.wf(),
            self.admits_permissions(user_id, ids),
        ensures
            self.with_permissions(user_id, ids, now).covers(user_id),
    {
        let post = self.with_permissions(user_id, ids, now);
        self.lemma_with_permissions(user_id, ids, now);
        lemma_first_outside_none(ids, self.allowed_permissions(user_id));
        assert(post.allowed_permissions(user_id) == self.allowed_permissions(user_id));
        assert forall|p: i32| post.permission_ids(user_id).contains(p) implies post.allowed_permissions(
            user_id,
        ).contains(p) by {
            assert(ids.to_set().contains(p));
            let i = choose|i: int| 0 <= i < ids.len() && ids[i] == p;
            assert(self.allowed_permissions(user_id).contains(ids[i]));
        }
    }

    /// The reconciliation of permissions keeps every user covered.
    pub proof fn lemma_with_permissions_keeps_coverage(self, user_id: i32, ids: Seq<i32>, now: i64)
        requires
            self.wf(),
            self.covered(),
            self.admits_permissions(user_id, ids),
        ensures
            self.with_permissions(user_id, ids, now).covered(),
    {
        let post = self.with_permissions(user_id, ids, now);
        self.lemma_with_permissions(user_id, ids, now);
        self.lemma_admitted_permissions_are_covered(user_id, ids, now);
        assert forall|other: i32| #[trigger] post.covers(other) by {
            if other != user_id {
                assert(self.covers(other));
                assert(post.permission_ids(other) == self.permission_ids(other));
                assert(post.allowed_permissions(other) == self.allowed_permissions(other));
            }
        }
    }

    /// The reconciliation of roles leaves the user with exactly the
    /// permissions that the new roles grant, and keeps every user covered.
    pub proof fn lemma_with_roles_keeps_coverage(self, user_id: i32, role_ids: Seq<i32>, now: i64)
        requires
            self.wf(),
            self.covered(),
            self.has_user(user_id),
        ensures
            self.with_roles(user_id, role_ids, now).permission_ids(user_id) == self.with_roles(
                user_id,
                role_ids,
                now,
            ).allowed_permissions(user_id),
            self.with_roles(user_id, role_ids, now).covered(),
    {
        let post = self.with_roles(user_id, role_ids, now);
        self.lemma_with_roles(user_id, role_ids, now);
        assert forall|other: i32| #[trigger] post.covers(other) by {
            if other != user_id {
                assert(self.covers(other));
                assert(post.permission_ids(other) == self.permission_ids(other));
                assert(post.role_ids(other) == self.role_ids(other));
                assert(post.allowed_permissions(other) == self.allowed_permissions(other));
            }
        }
    }

    /// A signup keeps every user covered.
    pub proof fn lemma_user_created_keeps_coverage(self, post: StoreView, info: UserInfo, now: i64)
        requires
            self.wf(),
            self.covered(),
            !self.has_username(info.username@),
            self.user_created(post, info, now),
        ensures
            post.covered(),
    {
        self.lemma_user_created(post, info, now);
        assert forall|other: i32| #[trigger] post.covers(other) by {
            if other != info.id {
                assert(self.covers(other));
                assert(post.permission_ids(other) == self.permission_ids(other));
                assert(post.role_ids(other) == self.role_ids(other));
                assert(post.allowed_permissions(other) == self.allowed_permissions(other));
            }
        }
    }

    /// A deletion keeps every user covered.
    pub proof fn lemma_without_user_keeps_coverage(self, user_id: i32)
        requires
            self.wf(),
            self.covered(),
            self.has_user(user_id),
        ensures
            self.without_user(user_id).covered(),
    {
        let post = self.without_user(user_id);
        self.lemma_without_user(user_id);
        assert forall|other: i32| #[trigger] post.covers(other) by {
            if other != user_id {
                assert(self.covers(other));
                assert(post.permission_ids(other) == self.permission_ids(other));
                assert(post.role_ids(other) == self.role_ids(other));
                assert(post.allowed_permissions(other) == self.allowed_permissions(other));
            }
        }
    }
}

} // verus!
