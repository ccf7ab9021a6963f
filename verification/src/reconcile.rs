//! The difference between the membership that is stored and the membership
//! that is asked for: which ids leave and which ids come.

use vstd::prelude::*;

verus! {

/// The ids to delete from, and to insert into, a stored membership.
#[derive(Debug)]
pub struct MembershipChange {
    pub to_delete: Vec<i32>,
    pub to_insert: Vec<i32>,
}

impl MembershipChange {
    /// The membership that is stored once the change has been applied to
    /// `current`: deletes first, then inserts.
    pub open spec fn applied_to(self, current: Set<i32>) -> Set<i32> {
        current.difference(self.to_delete@.to_set()).union(self.to_insert@.to_set())
    }

    /// The change writes nothing.
    pub open spec fn is_noop(self) -> bool {
        self.to_delete@.len() == 0 && self.to_insert@.len() == 0
    }

    /// The change that takes `current` to `target` and writes no more than
    /// it must: it deletes `current - target` and inserts `target - current`.
    pub open spec fn reconciles(self, current: Set<i32>, target: Set<i32>) -> bool {
        &&& self.to_delete@.no_duplicates()
        &&& self.to_insert@.no_duplicates()
        &&& self.to_delete@.to_set() == current.difference(target)
        &&& self.to_insert@.to_set() == target.difference(current)
    }

    pub fn is_empty(&self) -> (r: bool)
        ensures
            r == self.is_noop(),
    {
        self.to_delete.len() == 0 && self.to_insert.len() == 0
    }

    /// Applying a reconciling change leaves exactly the target stored.
    pub proof fn reconciling_change_reaches_target(self, current: Set<i32>, target: Set<i32>)
        requires
            self.reconciles(current, target),
        ensures
            self.applied_to(current) == target,
    {
        assert(self.applied_to(current) =~= target);
    }

    /// Reconciling a membership that already equals the target writes
    /// nothing: reconciliation is idempotent.
    pub proof fn settled_membership_needs_no_write(self, target: Set<i32>)
        requires
            self.reconciles(target, target),
        ensures
            self.is_noop(),
    {
        assert(target.difference(target) =~= Set::<i32>::empty());
        if self.to_delete@.len() > 0 {
            assert(self.to_delete@.to_set().contains(self.to_delete@[0]));
        }
        if self.to_insert@.len() > 0 {
            assert(self.to_insert@.to_set().contains(self.to_insert@[0]));
        }
    }
}

/// Whether `id` occurs in `ids`.
pub fn contains_id(ids: &Vec<i32>, id: i32) -> (r: bool)
    ensures
        r == ids@.contains(id),
{
    let mut i: usize = 0;
    while i < ids.len()
        invariant
            i <= ids@.len(),
            forall|k: int| 0 <= k < i ==> ids@[k] != id,
        decreases ids@.len() - i,
    {
        if ids[i] == id {
            return true;
        }
        i += 1;
    }
    false
}

/// The ids of `from` that do not occur in `without`, each once, in the order
/// in which `from` first names them.
pub open spec fn minus(from: Seq<i32>, without: Seq<i32>) -> Seq<i32>
    decreases from.len(),
{
    if from.len() == 0 {
        Seq::<i32>::empty()
    } else {
        let head = minus(from.drop_last(), without);
        if !without.contains(from.last()) && !head.contains(from.last()) {
            head.push(from.last())
        } else {
            head
        }
    }
}

/// `minus` is the difference of the two sets of ids, without repetition.
pub proof fn lemma_minus(from: Seq<i32>, without: Seq<i32>)
    ensures
        minus(from, without).no_duplicates(),
        minus(from, without).to_set() == from.to_set().difference(without.to_set()),
        forall|x: i32|
            #![trigger minus(from, without).contains(x)]
            minus(from, without).contains(x) <==> (from.contains(x) && !without.contains(x)),
    decreases from.len(),
{
    let out = minus(from, without);
    if from.len() > 0 {
        let init = from.drop_last();
        let head = minus(init, without);
        lemma_minus(init, without);
        assert(from =~= init.push(from.last()));
        assert forall|x: i32| out.contains(x) <==> (from.contains(x) && !without.contains(x)) by {
            lemma_push_contains(init, from.last(), x);
            lemma_push_contains(head, from.last(), x);
        }
        if !without.contains(from.last()) && !head.contains(from.last()) {
            assert forall|p: int, q: int| 0 <= p < out.len() && 0 <= q < out.len() && p
                != q implies out[p] != out[q] by {
                if p == head.len() {
                    assert(out[q] == head[q]);
                    assert(head.contains(head[q]));
                } else if q == head.len() {
                    assert(out[p] == head[p]);
                    assert(head.contains(head[p]));
                } else {
                    assert(out[p] == head[p] && out[q] == head[q]);
                }
            }
        }
    } else {
        assert forall|x: i32| out.contains(x) <==> (from.contains(x) && !without.contains(x)) by {}
    }
    assert(out.to_set() =~= from.to_set().difference(without.to_set()));
}

/// Computes `minus(from, without)`.
pub fn difference(from: &Vec<i32>, without: &Vec<i32>) -> (r: Vec<i32>)
    ensures
        r@ == minus(from@, without@),
        r@.no_duplicates(),
        r@.to_set() == from@.to_set().difference(without@.to_set()),
{
    let mut out: Vec<i32> = Vec::new();
    let mut i: usize = 0;
    while i < from.len()
        invariant
            i <= from@.len(),
            out@ == minus(from@.subrange(0, i as int), without@),
        decreases from@.len() - i,
    {
        let id = from[i];
        assert(from@.subrange(0, i + 1).drop_last() =~= from@.subrange(0, i as int));
        if !contains_id(without, id) && !contains_id(&out, id) {
            out.push(id);
        }
        i += 1;
    }
    proof {
        assert(from@.subrange(0, i as int) =~= from@);
        lemma_minus(from@, without@);
    }
    out
}

/// An element occurs in a sequence with one more element exactly when it
/// occurred before or is the new element.
pub proof fn lemma_push_contains(s: Seq<i32>, last: i32, x: i32)
    ensures
        s.push(last).contains(x) <==> (s.contains(x) || x == last),
{
    let t = s.push(last);
    if s.contains(x) {
        let k = choose|k: int| 0 <= k < s.len() && s[k] == x;
        assert(t[k] == x);
    }
    if x == last {
        assert(t[s.len() as int] == x);
    }
}

/// The change that takes the stored ids `current` to the ids asked for in
/// `target`.
pub fn plan_change(current: &Vec<i32>, target: &Vec<i32>) -> (change: MembershipChange)
    ensures
        change.to_delete@ == minus(current@, target@),
        change.to_insert@ == minus(target@, current@),
        change.reconciles(current@.to_set(), target@.to_set()),
{
    let to_delete = difference(current, target);
    let to_insert = difference(target, current);
    MembershipChange { to_delete, to_insert }
}

/// The first id of `requested` that `allowed` does not hold.
pub open spec fn first_outside(requested: Seq<i32>, allowed: Set<i32>) -> Option<i32>
    decreases requested.len(),
{
    if requested.len() == 0 {
        None
    } else if !allowed.contains(requested[0]) {
        Some(requested[0])
    } else {
        first_outside(requested.drop_first(), allowed)
    }
}

/// No id is outside `allowed` exactly when every requested id is allowed.
pub proof fn lemma_first_outside_none(requested: Seq<i32>, allowed: Set<i32>)
    ensures
        first_outside(requested, allowed).is_none() <==> (forall|i: int|
            0 <= i < requested.len() ==> allowed.contains(#[trigger] requested[i])),
    decreases requested.len(),
{
    if requested.len() > 0 {
        let rest = requested.drop_first();
        lemma_first_outside_none(rest, allowed);
        if allowed.contains(requested[0]) {
            if first_outside(rest, allowed).is_none() {
                assert forall|i: int| 0 <= i < requested.len() implies allowed.contains(
                    #[trigger] requested[i],
                ) by {
                    if i > 0 {
                        assert(requested[i] == rest[i - 1]);
                    }
                }
            } else {
                let k = choose|k: int| 0 <= k < rest.len() && !allowed.contains(#[trigger] rest[k]);
                assert(requested[k + 1] == rest[k]);
            }
        }
    }
}

/// Finds the first requested id that the allowed ids do not admit.
pub fn find_outside(requested: &Vec<i32>, allowed: &Vec<i32>) -> (r: Option<i32>)
    ensures
        r == first_outside(requested@, allowed@.to_set()),
{
    let mut i: usize = 0;
    assert(requested@.subrange(0, requested@.len() as int) =~= requested@);
    while i < requested.len()
        invariant
            i <= requested@.len(),
            first_outside(requested@, allowed@.to_set()) == first_outside(
                requested@.subrange(i as int, requested@.len() as int),
                allowed@.to_set(),
            ),
        decreases requested@.len() - i,
    {
        let ghost rest = requested@.subrange(i as int, requested@.len() as int);
        assert(rest[0] == requested@[i as int]);
        assert(rest.drop_first() =~= requested@.subrange(i + 1, requested@.len() as int));
        if !contains_id(allowed, requested[i]) {
            return Some(requested[i]);
        }
        i += 1;
    }
    assert(requested@.subrange(i as int, requested@.len() as int).len() == 0);
    None
}

} // verus!
