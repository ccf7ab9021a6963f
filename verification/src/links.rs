//! Membership rows: which user holds which role, or which permission. A
//! table of such rows holds each pair of user and item at most once.

use vstd::prelude::*;

verus! {

/// One row of a membership table: `user_id` holds `item_id`, a role or a
/// permission. Timestamps are microseconds since the Unix epoch.
#[derive(Clone, Copy, Debug, PartialEq, Eq, Structural)]
pub struct Membership {
    pub user_id: i32,
    pub item_id: i32,
    pub created_at: i64,
    pub updated_at: i64,
}

/// Some row says that `user_id` holds `item_id`.
pub open spec fn linked(rows: Seq<Membership>, user_id: i32, item_id: i32) -> bool {
    exists|i: int|
        0 <= i < rows.len() && (#[trigger] rows[i]).user_id == user_id && rows[i].item_id == item_id
}

/// The items that `user_id` holds.
pub open spec fn items_of(rows: Seq<Membership>, user_id: i32) -> Set<i32> {
    Set::new(|item_id: i32| linked(rows, user_id, item_id))
}

/// No pair of user and item has two rows.
pub open spec fn distinct_pairs(rows: Seq<Membership>) -> bool {
    forall|i: int, j: int|
        0 <= i < j < rows.len() ==> !((#[trigger] rows[i]).user_id == (#[trigger] rows[j]).user_id
            && rows[i].item_id == rows[j].item_id)
}

/// The place of the row that links `user_id` to `item_id`.
pub open spec fn link_index(rows: Seq<Membership>, user_id: i32, item_id: i32) -> int {
    choose|i: int|
        0 <= i < rows.len() && (#[trigger] rows[i]).user_id == user_id && rows[i].item_id == item_id
}

/// The table after an upsert of the pair: a row that exists keeps its place
/// and its creation time and has `updated_at` refreshed; else a new row is
/// appended.
pub open spec fn with_link(rows: Seq<Membership>, user_id: i32, item_id: i32, now: i64) -> Seq<
    Membership,
> {
    if linked(rows, user_id, item_id) {
        let i = link_index(rows, user_id, item_id);
        rows.update(
            i,
            Membership { user_id, item_id, created_at: rows[i].created_at, updated_at: now },
        )
    } else {
        rows.push(Membership { user_id, item_id, created_at: now, updated_at: now })
    }
}

/// The table after the row of the pair, if there is one, has been deleted.
pub open spec fn without_link(rows: Seq<Membership>, user_id: i32, item_id: i32) -> Seq<
    Membership,
> {
    if linked(rows, user_id, item_id) {
        rows.remove(link_index(rows, user_id, item_id))
    } else {
        rows
    }
}

/// The items of `user_id`, in the order of their rows.
pub open spec fn items_in_order(rows: Seq<Membership>, user_id: i32) -> Seq<i32>
    decreases rows.len(),
{
    if rows.len() == 0 {
        Seq::<i32>::empty()
    } else if rows.last().user_id == user_id {
        items_in_order(rows.drop_last(), user_id).push(rows.last().item_id)
    } else {
        items_in_order(rows.drop_last(), user_id)
    }
}

/// The table after the rows that link `user_id` to `items` have been
/// deleted, one item after the other.
pub open spec fn without_links(rows: Seq<Membership>, user_id: i32, items: Seq<i32>) -> Seq<
    Membership,
>
    decreases items.len(),
{
    if items.len() == 0 {
        rows
    } else {
        without_link(without_links(rows, user_id, items.drop_last()), user_id, items.last())
    }
}

/// The table after `user_id` has been linked to each of `items` by an
/// upsert, one item after the other.
pub open spec fn with_links(rows: Seq<Membership>, user_id: i32, items: Seq<i32>, now: i64) -> Seq<
    Membership,
>
    decreases items.len(),
{
    if items.len() == 0 {
        rows
    } else {
        with_link(with_links(rows, user_id, items.drop_last(), now), user_id, items.last(), now)
    }
}

/// Deleting the links to `items` removes those pairs and nothing else.
pub proof fn lemma_without_links(rows: Seq<Membership>, user_id: i32, items: Seq<i32>)
    requires
        distinct_pairs(rows),
    ensures
        distinct_pairs(without_links(rows, user_id, items)),
        forall|a: i32, b: i32|
            #![trigger linked(without_links(rows, user_id, items), a, b)]
            linked(without_links(rows, user_id, items), a, b) <==> (linked(rows, a, b) && !(a
                == user_id && items.contains(b))),
    decreases items.len(),
{
    if items.len() > 0 {
        let init = items.drop_last();
        let mid = without_links(rows, user_id, init);
        lemma_without_links(rows, user_id, init);
        lemma_without_link(mid, user_id, items.last());
        assert(items =~= init.push(items.last()));
        let out = without_link(mid, user_id, items.last());
        assert(without_links(rows, user_id, items) == out);
        assert forall|a: i32, b: i32|
            linked(without_links(rows, user_id, items), a, b) <==> (linked(rows, a, b) && !(a
                == user_id && items.contains(b))) by {
            crate::reconcile::lemma_push_contains(init, items.last(), b);
            assert(linked(out, a, b) <==> (linked(mid, a, b) && !(a == user_id && b == items.last())));
            assert(linked(mid, a, b) <==> (linked(rows, a, b) && !(a == user_id && init.contains(b))));
        }
    }
}

/// Upserting the links to `items` adds those pairs and nothing else.
pub proof fn lemma_with_links(rows: Seq<Membership>, user_id: i32, items: Seq<i32>, now: i64)
    requires
        distinct_pairs(rows),
    ensures
        distinct_pairs(with_links(rows, user_id, items, now)),
        forall|a: i32, b: i32|
            #![trigger linked(with_links(rows, user_id, items, now), a, b)]
            linked(with_links(rows, user_id, items, now), a, b) <==> (linked(rows, a, b) || (a
                == user_id && items.contains(b))),
    decreases items.len(),
{
    if items.len() > 0 {
        let init = items.drop_last();
        let mid = with_links(rows, user_id, init, now);
        lemma_with_links(rows, user_id, init, now);
        lemma_with_link(mid, user_id, items.last(), now);
        assert(items =~= init.push(items.last()));
        let out = with_link(mid, user_id, items.last(), now);
        assert(with_links(rows, user_id, items, now) == out);
        assert forall|a: i32, b: i32|
            linked(with_links(rows, user_id, items, now), a, b) <==> (linked(rows, a, b) || (a
                == user_id && items.contains(b))) by {
            crate::reconcile::lemma_push_contains(init, items.last(), b);
            assert(linked(out, a, b) <==> (linked(mid, a, b) || (a == user_id && b == items.last())));
            assert(linked(mid, a, b) <==> (linked(rows, a, b) || (a == user_id && init.contains(b))));
        }
    }
}

/// An upsert adds the pair and nothing else, and keeps pairs distinct.
pub proof fn lemma_with_link(rows: Seq<Membership>, user_id: i32, item_id: i32, now: i64)
    requires
        distinct_pairs(rows),
    ensures
        distinct_pairs(with_link(rows, user_id, item_id, now)),
        forall|a: i32, b: i32|
            #![trigger linked(with_link(rows, user_id, item_id, now), a, b)]
            linked(with_link(rows, user_id, item_id, now), a, b) <==> (linked(rows, a, b) || (a
                == user_id && b == item_id)),
{
    let r = with_link(rows, user_id, item_id, now);
    if linked(rows, user_id, item_id) {
        let i = link_index(rows, user_id, item_id);
        assert forall|k: int| 0 <= k < rows.len() implies (#[trigger] r[k]).user_id
            == rows[k].user_id && r[k].item_id == rows[k].item_id by {}
        assert forall|a: i32, b: i32|
            linked(r, a, b) <==> (linked(rows, a, b) || (a == user_id && b == item_id)) by {
            if linked(rows, a, b) {
                let k = choose|k: int|
                    0 <= k < rows.len() && (#[trigger] rows[k]).user_id == a && rows[k].item_id
                        == b;
                assert(r[k].user_id == a && r[k].item_id == b);
            }
            if linked(r, a, b) {
                let k = choose|k: int|
                    0 <= k < r.len() && (#[trigger] r[k]).user_id == a && r[k].item_id == b;
                assert(rows[k].user_id == a && rows[k].item_id == b);
            }
        }
        assert forall|p: int, q: int| 0 <= p < q < r.len() implies !((#[trigger] r[p]).user_id == (
        #[trigger] r[q]).user_id && r[p].item_id == r[q].item_id) by {
            assert(rows[p].user_id == r[p].user_id && rows[q].user_id == r[q].user_id);
            assert(rows[p].item_id == r[p].item_id && rows[q].item_id == r[q].item_id);
        }
    } else {
        let n = rows.len() as int;
        assert forall|a: i32, b: i32|
            linked(r, a, b) <==> (linked(rows, a, b) || (a == user_id && b == item_id)) by {
            if linked(rows, a, b) {
                let k = choose|k: int|
                    0 <= k < rows.len() && (#[trigger] rows[k]).user_id == a && rows[k].item_id
                        == b;
                assert(r[k].user_id == a && r[k].item_id == b);
            }
            if a == user_id && b == item_id {
                assert(r[n].user_id == a && r[n].item_id == b);
            }
            if linked(r, a, b) {
                let k = choose|k: int|
                    0 <= k < r.len() && (#[trigger] r[k]).user_id == a && r[k].item_id == b;
                if k < n {
                    assert(rows[k].user_id == a && rows[k].item_id == b);
                }
            }
        }
        assert forall|p: int, q: int| 0 <= p < q < r.len() implies !((#[trigger] r[p]).user_id == (
        #[trigger] r[q]).user_id && r[p].item_id == r[q].item_id) by {
            assert(r[p] == rows[p]);
            if q < n {
                assert(r[q] == rows[q]);
            }
        }
    }
}

/// A delete removes the pair and nothing else, and keeps pairs distinct.
pub proof fn lemma_without_link(rows: Seq<Membership>, user_id: i32, item_id: i32)
    requires
        distinct_pairs(rows),
    ensures
        distinct_pairs(without_link(rows, user_id, item_id)),
        forall|a: i32, b: i32|
            #![trigger linked(without_link(rows, user_id, item_id), a, b)]
            linked(without_link(rows, user_id, item_id), a, b) <==> (linked(rows, a, b) && !(a
                == user_id && b == item_id)),
{
    let r = without_link(rows, user_id, item_id);
    if linked(rows, user_id, item_id) {
        let i = link_index(rows, user_id, item_id);
        assert forall|k: int| 0 <= k < r.len() implies #[trigger] r[k] == rows[if k < i {
            k
        } else {
            k + 1
        }] by {}
        assert forall|a: i32, b: i32|
            linked(r, a, b) <==> (linked(rows, a, b) && !(a == user_id && b == item_id)) by {
            if linked(rows, a, b) && !(a == user_id && b == item_id) {
                let k = choose|k: int|
                    0 <= k < rows.len() && (#[trigger] rows[k]).user_id == a && rows[k].item_id
                        == b;
                if k < i {
                    assert(r[k] == rows[k]);
                } else {
                    assert(r[k - 1] == rows[k]);
                }
            }
            if linked(r, a, b) {
                let k = choose|k: int|
                    0 <= k < r.len() && (#[trigger] r[k]).user_id == a && r[k].item_id == b;
                let m = if k < i {
                    k
                } else {
                    k + 1
                };
                assert(rows[m].user_id == a && rows[m].item_id == b);
                if a == user_id && b == item_id {
                    if m < i {
                        assert(!(rows[m].user_id == rows[i].user_id && rows[m].item_id
                            == rows[i].item_id));
                    } else {
                        assert(!(rows[i].user_id == rows[m].user_id && rows[i].item_id
                            == rows[m].item_id));
                    }
                }
            }
        }
        assert forall|p: int, q: int| 0 <= p < q < r.len() implies !((#[trigger] r[p]).user_id == (
        #[trigger] r[q]).user_id && r[p].item_id == r[q].item_id) by {
            let pm = if p < i {
                p
            } else {
                p + 1
            };
            let qm = if q < i {
                q
            } else {
                q + 1
            };
            assert(r[p] == rows[pm] && r[q] == rows[qm]);
            assert(!(rows[pm].user_id == rows[qm].user_id && rows[pm].item_id
                == rows[qm].item_id));
        }
    }
}

/// The items listed in row order are the items of the user, each once.
pub proof fn lemma_items_in_order(rows: Seq<Membership>, user_id: i32)
    requires
        distinct_pairs(rows),
    ensures
        items_in_order(rows, user_id).no_duplicates(),
        items_in_order(rows, user_id).to_set() == items_of(rows, user_id),
        forall|b: i32|
            #![trigger items_in_order(rows, user_id).contains(b)]
            #![trigger linked(rows, user_id, b)]
            items_in_order(rows, user_id).contains(b) <==> linked(rows, user_id, b),
    decreases rows.len(),
{
    let out = items_in_order(rows, user_id);
    if rows.len() == 0 {
        assert forall|b: i32| out.contains(b) <==> linked(rows, user_id, b) by {}
    } else {
        let head = rows.drop_last();
        let last = rows.last();
        let n = head.len() as int;
        assert forall|p: int, q: int| 0 <= p < q < head.len() implies !((#[trigger] head[p]).user_id
            == (#[trigger] head[q]).user_id && head[p].item_id == head[q].item_id) by {
            assert(head[p] == rows[p] && head[q] == rows[q]);
        }
        lemma_items_in_order(head, user_id);
        let inner = items_in_order(head, user_id);
        assert forall|b: i32| out.contains(b) <==> linked(rows, user_id, b) by {
            if linked(head, user_id, b) {
                let k = choose|k: int|
                    0 <= k < head.len() && (#[trigger] head[k]).user_id == user_id
                        && head[k].item_id == b;
                assert(rows[k] == head[k]);
            }
            if linked(rows, user_id, b) {
                let k = choose|k: int|
                    0 <= k < rows.len() && (#[trigger] rows[k]).user_id == user_id
                        && rows[k].item_id == b;
                if k < n {
                    assert(head[k] == rows[k]);
                }
            }
            if last.user_id == user_id {
                crate::reconcile::lemma_push_contains(inner, last.item_id, b);
                if b == last.item_id {
                    assert(rows[n] == last);
                }
            }
        }
        if last.user_id == user_id {
            if inner.contains(last.item_id) {
                assert(linked(head, user_id, last.item_id));
                let k = choose|k: int|
                    0 <= k < head.len() && (#[trigger] head[k]).user_id == user_id
                        && head[k].item_id == last.item_id;
                assert(rows[k] == head[k]);
                assert(rows[n] == last);
                assert(!(rows[k].user_id == rows[n].user_id && rows[k].item_id == rows[n].item_id));
            }
            assert(out == inner.push(last.item_id));
            assert forall|p: int, q: int| 0 <= p < out.len() && 0 <= q < out.len() && p
                != q implies out[p] != out[q] by {
                if p == inner.len() {
                    assert(out[q] == inner[q]);
                    assert(inner.contains(inner[q]));
                } else if q == inner.len() {
                    assert(out[p] == inner[p]);
                    assert(inner.contains(inner[p]));
                } else {
                    assert(out[p] == inner[p] && out[q] == inner[q]);
                }
            }
        }
    }
    assert(out.to_set() =~= items_of(rows, user_id));
}

/// The place of the row that links `user_id` to `item_id`, if there is one.
pub fn find_link(rows: &Vec<Membership>, user_id: i32, item_id: i32) -> (r: Option<usize>)
    ensures
        match r {
            Some(i) => i < rows@.len() && rows@[i as int].user_id == user_id && rows@[i as int].item_id
                == item_id,
            None => !linked(rows@, user_id, item_id),
        },
{
    let mut i: usize = 0;
    while i < rows.len()
        invariant
            i <= rows@.len(),
            forall|k: int|
                0 <= k < i ==> !((#[trigger] rows@[k]).user_id == user_id && rows@[k].item_id
                    == item_id),
        decreases rows@.len() - i,
    {
        if rows[i].user_id == user_id && rows[i].item_id == item_id {
            return Some(i);
        }
        i += 1;
    }
    None
}

/// In a table of distinct pairs the row of a pair is the only one.
pub proof fn lemma_link_index_is(rows: Seq<Membership>, user_id: i32, item_id: i32, i: int)
    requires
        distinct_pairs(rows),
        0 <= i < rows.len(),
        rows[i].user_id == user_id,
        rows[i].item_id == item_id,
    ensures
        linked(rows, user_id, item_id),
        link_index(rows, user_id, item_id) == i,
{
    let k = link_index(rows, user_id, item_id);
    if k < i {
        assert(!(rows[k].user_id == rows[i].user_id && rows[k].item_id == rows[i].item_id));
    } else if i < k {
        assert(!(rows[i].user_id == rows[k].user_id && rows[i].item_id == rows[k].item_id));
    }
}

/// Upserts the pair: refreshes `updated_at` of its row, or appends a row.
pub fn link(rows: &mut Vec<Membership>, user_id: i32, item_id: i32, now: i64)
    requires
        distinct_pairs(old(rows)@),
    ensures
        final(rows)@ == with_link(old(rows)@, user_id, item_id, now),
        distinct_pairs(final(rows)@),
{
    proof {
        lemma_with_link(rows@, user_id, item_id, now);
    }
    match find_link(rows, user_id, item_id) {
        Some(i) => {
            proof {
                lemma_link_index_is(rows@, user_id, item_id, i as int);
            }
            let created_at = rows[i].created_at;
            rows.set(i, Membership { user_id, item_id, created_at, updated_at: now });
        },
        None => {
            rows.push(Membership { user_id, item_id, created_at: now, updated_at: now });
        },
    }
}

/// Deletes the row of the pair, if there is one.
pub fn unlink(rows: &mut Vec<Membership>, user_id: i32, item_id: i32)
    requires
        distinct_pairs(old(rows)@),
    ensures
        final(rows)@ == without_link(old(rows)@, user_id, item_id),
        distinct_pairs(final(rows)@),
{
    proof {
        lemma_without_link(rows@, user_id, item_id);
    }
    match find_link(rows, user_id, item_id) {
        Some(i) => {
            proof {
                lemma_link_index_is(rows@, user_id, item_id, i as int);
            }
            rows.remove(i);
        },
        None => {},
    }
}

/// The items that `user_id` holds, in the order of their rows.
pub fn items_of_user(rows: &Vec<Membership>, user_id: i32) -> (r: Vec<i32>)
    ensures
        r@ == items_in_order(rows@, user_id),
{
    let mut out: Vec<i32> = Vec::new();
    let mut i: usize = 0;
    while i < rows.len()
        invariant
            i <= rows@.len(),
            out@ == items_in_order(rows@.subrange(0, i as int), user_id),
        decreases rows@.len() - i,
    {
        assert(rows@.subrange(0, i + 1).drop_last() =~= rows@.subrange(0, i as int));
        if rows[i].user_id == user_id {
            out.push(rows[i].item_id);
        }
        i += 1;
    }
    assert(rows@.subrange(0, i as int) =~= rows@);
    out
}

/// Deletes the rows that link `user_id` to one of `items`.
pub fn unlink_all(rows: &mut Vec<Membership>, user_id: i32, items: &Vec<i32>)
    requires
        distinct_pairs(old(rows)@),
    ensures
        final(rows)@ == without_links(old(rows)@, user_id, items@),
        distinct_pairs(final(rows)@),
{
    let mut i: usize = 0;
    while i < items.len()
        invariant
            i <= items@.len(),
            distinct_pairs(rows@),
            rows@ == without_links(old(rows)@, user_id, items@.subrange(0, i as int)),
        decreases items@.len() - i,
    {
        assert(items@.subrange(0, i + 1).drop_last() =~= items@.subrange(0, i as int));
        unlink(rows, user_id, items[i]);
        i += 1;
    }
    assert(items@.subrange(0, i as int) =~= items@);
}

/// Upserts a row that links `user_id` to each of `items`.
pub fn link_all(rows: &mut Vec<Membership>, user_id: i32, items: &Vec<i32>, now: i64)
    requires
        distinct_pairs(old(rows)@),
    ensures
        final(rows)@ == with_links(old(rows)@, user_id, items@, now),
        distinct_pairs(final(rows)@),
{
    let mut i: usize = 0;
    while i < items.len()
        invariant
            i <= items@.len(),
            distinct_pairs(rows@),
            rows@ == with_links(old(rows)@, user_id, items@.subrange(0, i as int), now),
        decreases items@.len() - i,
    {
        assert(items@.subrange(0, i + 1).drop_last() =~= items@.subrange(0, i as int));
        link(rows, user_id, items[i], now);
        i += 1;
    }
    assert(items@.subrange(0, i as int) =~= items@);
}

} // verus!
