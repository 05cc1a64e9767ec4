//! The walks over the bill of materials: down from an item to everything
//! below it, and up from an item through the settled items that use it. Each
//! walk marks the items that it meets, so that it meets every item once and
//! ends on any graph, cycles or not.

use crate::database::{Database, ItemMaturity, ItemView, Tables};
use crate::marks::{clear_flags, count_set, lemma_count_set_bound, lemma_count_set_update, marked};
use crate::rules::{
    lemma_cascade_start, lemma_cascade_step, lemma_closed_set_holds_cascade,
    lemma_closed_set_holds_reachable, lemma_link_reaches, lemma_reach_then_link,
};
use vstd::prelude::*;

verus! {

/// Marks the children of `parent` that are not marked yet, and puts each of
/// them on the stack of items still to be visited.
fn mark_children(db: &Database, parent: i64, seen: &mut Vec<bool>, stack: &mut Vec<i64>)
    requires
        db.wf(),
        old(seen)@.len() == db@.items.len(),
    ensures
        final(seen)@.len() == old(seen)@.len(),
        forall|id: int| marked(old(seen)@, id) ==> marked(final(seen)@, id),
        forall|id: int|
            #![trigger marked(final(seen)@, id)]
            marked(final(seen)@, id) && !marked(old(seen)@, id) ==> db@.has_link(parent as int, id)
                && final(stack)@.contains(id as i64) && i64::MIN <= id <= i64::MAX,
        forall|c: int| #[trigger] db@.has_link(parent as int, c) ==> marked(final(seen)@, c),
        final(stack)@.len() >= old(stack)@.len(),
        final(stack)@.take(old(stack)@.len() as int) == old(stack)@,
        forall|j: int|
            old(stack)@.len() <= j < final(stack)@.len() ==> marked(
                final(seen)@,
                #[trigger] final(stack)@[j] as int,
            ),
        count_set(final(seen)@) + old(stack)@.len() == count_set(old(seen)@) + final(stack)@.len(),
{
    let ghost t = db@;
    let ghost seen0 = seen@;
    let ghost stack0 = stack@;
    proof {
        db.lemma_wf_valid();
    }
    let count = db.link_count();
    let mut i: usize = 0;
    while i < count
        invariant
            db.wf(),
            t == db@,
            t.valid(),
            count == t.links.len(),
            i <= count,
            seen@.len() == seen0.len(),
            seen0.len() == t.items.len(),
            forall|id: int| marked(seen0, id) ==> marked(seen@, id),
            forall|id: int|
                marked(seen@, id) && !marked(seen0, id) ==> t.has_link(parent as int, id)
                    && stack@.contains(id as i64) && i64::MIN <= id <= i64::MAX,
            forall|k: int|
                0 <= k < i && (#[trigger] t.links[k]).parent_id == parent ==> marked(
                    seen@,
                    t.links[k].child_id as int,
                ),
            stack@.len() >= stack0.len(),
            stack@.take(stack0.len() as int) == stack0,
            forall|j: int|
                stack0.len() <= j < stack@.len() ==> marked(seen@, #[trigger] stack@[j] as int),
            count_set(seen@) + stack0.len() == count_set(seen0) + stack@.len(),
        decreases count - i,
    {
        let link = db.link_at(i);
        if link.parent_id == parent {
            let child = link.child_id;
            assert(t.has_item(t.links[i as int].child_id as int));
            let size = seen.len();
            assert(child <= size);
            let index = (child - 1) as usize;
            if !seen[index] {
                let ghost seen1 = seen@;
                let ghost stack1 = stack@;
                seen.set(index, true);
                stack.push(child);
                proof {
                    lemma_count_set_update(seen1, index as int);
                    assert(stack@.take(stack0.len() as int) =~= stack1.take(stack0.len() as int));
                    assert(stack@[stack1.len() as int] == child);
                    assert forall|id: int|
                        marked(seen@, id) && !marked(seen0, id) implies t.has_link(
                        parent as int,
                        id,
                    ) && stack@.contains(id as i64) && i64::MIN <= id <= i64::MAX by {
                        if id == child {
                            assert(t.links[i as int].parent_id == parent);
                        } else {
                            assert(marked(seen1, id));
                            let j = choose|j: int|
                                0 <= j < stack1.len() && stack1[j] == id as i64;
                            assert(stack@[j] == id as i64);
                        }
                    }
                    assert forall|j: int| stack0.len() <= j < stack@.len() implies marked(
                        seen@,
                        #[trigger] stack@[j] as int,
                    ) by {
                        if j < stack1.len() {
                            assert(stack@[j] == stack1[j]);
                            assert(marked(seen1, stack1[j] as int));
                        }
                    }
                }
            }
        }
        i += 1;
    }
    proof {
        assert forall|c: int| #[trigger] t.has_link(parent as int, c) implies marked(seen@, c) by {
            let k = choose|k: int|
                0 <= k < t.links.len() && (#[trigger] t.links[k]).parent_id == parent as int
                    && t.links[k].child_id == c;
            assert(marked(seen@, t.links[k].child_id as int));
        }
    }
}

/// Whether every item below `root` is released.
pub fn all_below_released(db: &Database, root: i64) -> (ok: bool)
    requires
        db.wf(),
    ensures
        ok == db@.descendants_released(root as int),
{
    let ghost t = db@;
    proof {
        db.lemma_wf_valid();
    }
    let mut seen = clear_flags(db.item_count());
    let mut stack: Vec<i64> = Vec::new();
    let ghost mut done: Set<int> = Set::empty();
    mark_children(db, root, &mut seen, &mut stack);
    proof {
        assert forall|id: int| marked(seen@, id) implies t.reachable(root as int, id) by {
            lemma_link_reaches(t, root as int, id);
        }
        lemma_count_set_bound(seen@);
    }
    while stack.len() > 0
        invariant
            db.wf(),
            t == db@,
            t.valid(),
            seen@.len() == t.items.len(),
            forall|j: int| 0 <= j < stack@.len() ==> marked(seen@, #[trigger] stack@[j] as int),
            forall|id: int| marked(seen@, id) ==> t.reachable(root as int, id),
            forall|id: int|
                done.contains(id) ==> marked(seen@, id) && t.item(id).maturity
                    == ItemMaturity::Released,
            forall|id: int, c: int|
                done.contains(id) && #[trigger] t.has_link(id, c) ==> marked(seen@, c),
            forall|c: int| #[trigger] t.has_link(root as int, c) ==> marked(seen@, c),
            forall|id: int|
                marked(seen@, id) ==> done.contains(id) || (i64::MIN <= id <= i64::MAX
                    && stack@.contains(id as i64)),
            count_set(seen@) <= seen@.len(),
        decreases 2 * (seen@.len() - count_set(seen@)) + stack@.len(),
    {
        let ghost stack1 = stack@;
        let ghost seen1 = seen@;
        let current = stack.pop().unwrap();
        assert(marked(seen1, stack1[stack1.len() - 1] as int));
        if db.maturity_of(current) != ItemMaturity::Released {
            assert(t.reachable(root as int, current as int));
            return false;
        }
        let ghost stack2 = stack@;
        mark_children(db, current, &mut seen, &mut stack);
        proof {
            lemma_count_set_bound(seen@);
            assert forall|id: int| marked(seen@, id) implies t.reachable(root as int, id) by {
                if !marked(seen1, id) {
                    lemma_reach_then_link(t, root as int, current as int, id);
                }
            }
            assert forall|id: int|
                marked(seen@, id) implies done.insert(current as int).contains(id) || (i64::MIN
                <= id <= i64::MAX && stack@.contains(id as i64)) by {
                if marked(seen1, id) && !done.contains(id) && id != current {
                    let j = choose|j: int| 0 <= j < stack1.len() && stack1[j] == id as i64;
                    assert(j < stack2.len());
                    assert(stack@.take(stack2.len() as int)[j] == stack2[j]);
                    assert(stack@[j] == id as i64);
                }
            }
            assert forall|j: int| 0 <= j < stack@.len() implies marked(
                seen@,
                #[trigger] stack@[j] as int,
            ) by {
                if j < stack2.len() {
                    assert(stack@.take(stack2.len() as int)[j] == stack2[j]);
                    assert(marked(seen1, stack1[j] as int));
                }
            }
            done = done.insert(current as int);
        }
    }
    proof {
        let inside = |id: int| marked(seen@, id);
        assert forall|v: int, c: int| inside(v) && #[trigger] t.has_link(v, c) implies inside(
            c,
        ) by {
            assert(done.contains(v));
        }
        lemma_closed_set_holds_reachable(t, root as int, inside);
        assert forall|below: int| #[trigger] t.reachable(root as int, below) implies t.item(
            below,
        ).maturity == ItemMaturity::Released by {
            assert(inside(below));
            assert(done.contains(below));
        }
    }
    true
}

/// Marks the parents of `child` that are settled and not marked yet, and puts
/// each of them on the stack of items still to be visited.
fn mark_settled_parents(db: &Database, child: i64, seen: &mut Vec<bool>, stack: &mut Vec<i64>)
    requires
        db.wf(),
        old(seen)@.len() == db@.items.len(),
    ensures
        final(seen)@.len() == old(seen)@.len(),
        forall|id: int| marked(old(seen)@, id) ==> marked(final(seen)@, id),
        forall|id: int|
            #![trigger marked(final(seen)@, id)]
            marked(final(seen)@, id) && !marked(old(seen)@, id) ==> db@.has_link(id, child as int)
                && db@.settled(id) && final(stack)@.contains(id as i64) && i64::MIN <= id
                <= i64::MAX,
        forall|p: int|
            #[trigger] db@.has_link(p, child as int) && db@.settled(p) ==> marked(final(seen)@, p),
        final(stack)@.len() >= old(stack)@.len(),
        final(stack)@.take(old(stack)@.len() as int) == old(stack)@,
        forall|j: int|
            old(stack)@.len() <= j < final(stack)@.len() ==> marked(
                final(seen)@,
                #[trigger] final(stack)@[j] as int,
            ),
        count_set(final(seen)@) + old(stack)@.len() == count_set(old(seen)@) + final(stack)@.len(),
{
    let ghost t = db@;
    let ghost seen0 = seen@;
    let ghost stack0 = stack@;
    proof {
        db.lemma_wf_valid();
    }
    let count = db.link_count();
    let mut i: usize = 0;
    while i < count
        invariant
            db.wf(),
            t == db@,
            t.valid(),
            count == t.links.len(),
            i <= count,
            seen@.len() == seen0.len(),
            seen0.len() == t.items.len(),
            forall|id: int| marked(seen0, id) ==> marked(seen@, id),
            forall|id: int|
                marked(seen@, id) && !marked(seen0, id) ==> t.has_link(id, child as int)
                    && t.settled(id) && stack@.contains(id as i64) && i64::MIN <= id <= i64::MAX,
            forall|k: int|
                0 <= k < i && (#[trigger] t.links[k]).child_id == child && t.settled(
                    t.links[k].parent_id as int,
                ) ==> marked(seen@, t.links[k].parent_id as int),
            stack@.len() >= stack0.len(),
            stack@.take(stack0.len() as int) == stack0,
            forall|j: int|
                stack0.len() <= j < stack@.len() ==> marked(seen@, #[trigger] stack@[j] as int),
            count_set(seen@) + stack0.len() == count_set(seen0) + stack@.len(),
        decreases count - i,
    {
        let link = db.link_at(i);
        if link.child_id == child {
            let parent = link.parent_id;
            assert(t.has_item(t.links[i as int].parent_id as int));
            let size = seen.len();
            assert(parent <= size);
            let index = (parent - 1) as usize;
            if !seen[index] && db.maturity_of(parent) != ItemMaturity::InProgress {
                let ghost seen1 = seen@;
                let ghost stack1 = stack@;
                seen.set(index, true);
                stack.push(parent);
                proof {
                    lemma_count_set_update(seen1, index as int);
                    assert(stack@.take(stack0.len() as int) =~= stack1.take(stack0.len() as int));
                    assert(stack@[stack1.len() as int] == parent);
                    assert forall|id: int|
                        marked(seen@, id) && !marked(seen0, id) implies t.has_link(
                        id,
                        child as int,
                    ) && t.settled(id) && stack@.contains(id as i64) && i64::MIN <= id
                        <= i64::MAX by {
                        if id == parent {
                            assert(t.links[i as int].parent_id == parent);
                        } else {
                            assert(marked(seen1, id));
                            let j = choose|j: int|
                                0 <= j < stack1.len() && stack1[j] == id as i64;
                            assert(stack@[j] == id as i64);
                        }
                    }
                    assert forall|j: int| stack0.len() <= j < stack@.len() implies marked(
                        seen@,
                        #[trigger] stack@[j] as int,
                    ) by {
                        if j < stack1.len() {
                            assert(stack@[j] == stack1[j]);
                            assert(marked(seen1, stack1[j] as int));
                        }
                    }
                }
            }
        }
        i += 1;
    }
    proof {
        assert forall|p: int| #[trigger] t.has_link(p, child as int) && t.settled(p) implies marked(
            seen@,
            p,
        ) by {
            let k = choose|k: int|
                0 <= k < t.links.len() && (#[trigger] t.links[k]).parent_id == p
                    && t.links[k].child_id == child as int;
            assert(marked(seen@, t.links[k].parent_id as int));
        }
    }
}

/// What an item is once it is obsolete.
spec fn made_obsolete(item: ItemView) -> ItemView {
    ItemView { maturity: ItemMaturity::Obsolete, ..item }
}

/// Marks the target obsolete if it is settled, and with it every settled item
/// that uses an item so marked.
pub fn spread_obsolescence(db: &mut Database, target: i64)
    requires
        old(db).wf(),
        old(db)@.has_item(target as int),
    ensures
        final(db).wf(),
        final(db)@ == old(db)@.after_cascade(target as int),
{
    let ghost t0 = db@;
    proof {
        db.lemma_wf_valid();
    }
    if db.maturity_of(target) == ItemMaturity::InProgress {
        proof {
            assert forall|id: int| !t0.in_cascade(target as int, id) by {
                if t0.in_cascade(target as int, id) {
                    let climb = choose|climb: Seq<int>|
                        #[trigger] t0.is_settled_climb(climb) && climb.len() >= 1 && climb[0]
                            == target as int && climb.last() == id;
                    assert(t0.settled(climb[0]));
                }
            }
            assert(t0.after_cascade(target as int).items =~= t0.items);
        }
        return ;
    }
    let mut seen = clear_flags(db.item_count());
    let mut stack: Vec<i64> = Vec::new();
    let ghost mut done: Set<int> = Set::empty();
    let size = seen.len();
    assert(target <= size);
    let start = (target - 1) as usize;
    proof {
        lemma_count_set_update(seen@, start as int);
    }
    seen.set(start, true);
    stack.push(target);
    proof {
        lemma_cascade_start(t0, target as int);
        lemma_count_set_bound(seen@);
        assert(stack@[0] == target);
        assert forall|id: int| marked(seen@, id) implies id == target by {}
    }
    while stack.len() > 0
        invariant
            db.wf(),
            t0.valid(),
            t0.has_item(target as int),
            db@.links == t0.links,
            db@.config == t0.config,
            db@.items.len() == t0.items.len(),
            forall|i: int|
                0 <= i < t0.items.len() ==> #[trigger] db@.items[i] == if done.contains(i + 1) {
                    made_obsolete(t0.items[i])
                } else {
                    t0.items[i]
                },
            seen@.len() == t0.items.len(),
            forall|j: int| 0 <= j < stack@.len() ==> marked(seen@, #[trigger] stack@[j] as int),
            forall|id: int| marked(seen@, id) ==> t0.in_cascade(target as int, id),
            forall|id: int| done.contains(id) ==> marked(seen@, id),
            forall|id: int, p: int|
                done.contains(id) && #[trigger] t0.has_link(p, id) && t0.settled(p) ==> marked(
                    seen@,
                    p,
                ),
            marked(seen@, target as int),
            forall|id: int|
                marked(seen@, id) ==> done.contains(id) || (i64::MIN <= id <= i64::MAX
                    && stack@.contains(id as i64)),
            count_set(seen@) <= seen@.len(),
        decreases 2 * (seen@.len() - count_set(seen@)) + stack@.len(),
    {
        let ghost stack1 = stack@;
        let ghost seen1 = seen@;
        let ghost t1 = db@;
        let current = stack.pop().unwrap();
        assert(marked(seen1, stack1[stack1.len() - 1] as int));
        let _ = db.set_maturity(current, ItemMaturity::Obsolete);
        let ghost t2 = db@;
        let ghost stack2 = stack@;
        proof {
            assert(t2 == t1.with_maturity(current as int, ItemMaturity::Obsolete));
            assert(t0.in_cascade(target as int, current as int));
            lemma_settled_of_cascade(t0, target as int, current as int);
            assert forall|id: int| t2.settled(id) == t0.settled(id) by {
                if t0.has_item(id) {
                    assert(t1.items[id - 1] == if done.contains(id - 1 + 1) {
                        made_obsolete(t0.items[id - 1])
                    } else {
                        t0.items[id - 1]
                    });
                    if done.contains(id) {
                        lemma_settled_of_cascade(t0, target as int, id);
                    }
                }
            }
            assert forall|p: int, c: int| t2.has_link(p, c) == t0.has_link(p, c) by {}
        }
        mark_settled_parents(db, current, &mut seen, &mut stack);
        proof {
            lemma_count_set_bound(seen@);
            assert forall|id: int| marked(seen@, id) implies t0.in_cascade(target as int, id) by {
                if !marked(seen1, id) {
                    assert(t2.has_link(id, current as int));
                    assert(t0.has_link(id, current as int));
                    lemma_cascade_step(t0, target as int, current as int, id);
                }
            }
            assert forall|id: int|
                marked(seen@, id) implies done.insert(current as int).contains(id) || (i64::MIN
                <= id <= i64::MAX && stack@.contains(id as i64)) by {
                if marked(seen1, id) && !done.contains(id) && id != current {
                    let j = choose|j: int| 0 <= j < stack1.len() && stack1[j] == id as i64;
                    assert(j < stack2.len());
                    assert(stack@.take(stack2.len() as int)[j] == stack2[j]);
                    assert(stack@[j] == id as i64);
                }
            }
            assert forall|j: int| 0 <= j < stack@.len() implies marked(
                seen@,
                #[trigger] stack@[j] as int,
            ) by {
                if j < stack2.len() {
                    assert(stack@.take(stack2.len() as int)[j] == stack2[j]);
                    assert(marked(seen1, stack1[j] as int));
                }
            }
            assert forall|id: int, p: int|
                done.insert(current as int).contains(id) && #[trigger] t0.has_link(p, id)
                    && t0.settled(p) implies marked(seen@, p) by {
                if id == current {
                    assert(t2.has_link(p, current as int));
                    assert(t2.settled(p));
                }
            }
            assert forall|i: int| 0 <= i < t0.items.len() implies #[trigger] db@.items[i] == if done.insert(
                current as int,
            ).contains(i + 1) {
                made_obsolete(t0.items[i])
            } else {
                t0.items[i]
            } by {
                assert(t1.items[i] == if done.contains(i + 1) {
                    made_obsolete(t0.items[i])
                } else {
                    t0.items[i]
                });
            }
            done = done.insert(current as int);
        }
    }
    proof {
        let inside = |id: int| marked(seen@, id);
        assert forall|v: int, p: int|
            inside(v) && #[trigger] t0.has_link(p, v) && t0.settled(p) implies inside(p) by {
            assert(done.contains(v));
        }
        lemma_closed_set_holds_cascade(t0, target as int, inside);
        assert forall|i: int| 0 <= i < t0.items.len() implies db@.items[i] == t0.after_cascade(
            target as int,
        ).items[i] by {
            if t0.in_cascade(target as int, i + 1) {
                assert(inside(i + 1));
                assert(done.contains(i + 1));
            }
            if done.contains(i + 1) {
                assert(marked(seen@, i + 1));
            }
        }
        assert(db@.items =~= t0.after_cascade(target as int).items);
    }
}

/// Every item that the cascade reaches is settled.
proof fn lemma_settled_of_cascade(t: Tables, target: int, id: int)
    requires
        t.in_cascade(target, id),
    ensures
        t.settled(id),
{
    let climb = choose|climb: Seq<int>|
        #[trigger] t.is_settled_climb(climb) && climb.len() >= 1 && climb[0] == target
            && climb.last() == id;
    assert(t.settled(climb[climb.len() - 1]));
}

} // verus!
