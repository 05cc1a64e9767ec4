//! The multi-level explosion of a bill of materials: what an item requires,
//! level below level, flattened into one report.

use crate::children::ChildRef;
use crate::database::{child_rows, ChildLink, Database, Tables};
use crate::report::{merged, quantity_in, with_quantity, Report, Requirements};
use vstd::prelude::*;

verus! {

impl Tables {
    /// The quantity of an item that the given links require within `depth`
    /// levels: for each link, the quantity of the link where it ends at the
    /// item, and what the child of the link requires of the item one level
    /// further down. A quantity counts as it stands on its link; it is not
    /// multiplied by the quantities of the links above.
    pub open spec fn quantity_over(self, rows: Seq<ChildLink>, id: int, depth: nat) -> nat
        decreases depth, rows.len(),
    {
        if depth == 0 || rows.len() == 0 {
            0
        } else {
            let row = rows.last();
            self.quantity_over(rows.drop_last(), id, depth) + (if row.child_id == id {
                row.quantity as nat
            } else {
                0nat
            }) + self.quantity_over(
                Tables::links_from(self.links, row.child_id as int),
                id,
                (depth - 1) as nat,
            )
        }
    }

    /// The quantity of an item that `root` requires within `depth` levels:
    /// the sum, over every way of at most `depth` links that leads from
    /// `root` down to the item, of the quantity of the last link.
    pub open spec fn quantity_below(self, root: int, id: int, depth: nat) -> nat {
        self.quantity_over(Tables::links_from(self.links, root), id, depth)
    }

    /// Whether some way down from `root` has more than `depth` links.
    pub open spec fn deeper_than(self, root: int, depth: nat) -> bool {
        exists|path: Seq<int>|
            #[trigger] self.is_path(path) && path.len() > depth + 1 && path[0] == root
    }

    /// Whether the explosion of `root` ends within `depth` levels, with
    /// quantities that fit the machine word.
    pub open spec fn fits_within(self, root: int, depth: nat) -> bool {
        &&& !self.deeper_than(root, depth)
        &&& forall|id: int| #[trigger] self.quantity_below(root, id, depth) <= usize::MAX
    }

    /// The explosion of `root` over `depth` levels: every item below `root`,
    /// with the quantity that `root` requires of it.
    pub open spec fn explosion_within(self, root: int, depth: nat) -> Requirements {
        Map::new(
            |id: int| self.reachable(root, id),
            |id: int| (self.item(id), self.quantity_below(root, id, depth)),
        )
    }

    /// Whether the explosion of `root` can be computed: no way down from
    /// `root` has more links than there are items, which leaves out the bills
    /// of materials that hold a cycle below `root`, and every quantity fits the
    /// machine word.
    pub open spec fn explosion_fits(self, root: int) -> bool {
        self.fits_within(root, self.items.len())
    }

    /// The explosion of `root`: every item below it, with the quantity that
    /// `root` requires of it over all levels.
    pub open spec fn explosion(self, root: int) -> Requirements {
        self.explosion_within(root, self.items.len())
    }
}

/// Whether an item is the child of one of the rows, or lies below one.
pub open spec fn below_rows(t: Tables, rows: Seq<ChildLink>, id: int) -> bool {
    exists|j: int|
        0 <= j < rows.len() && ((#[trigger] rows[j]).child_id == id || t.reachable(
            rows[j].child_id as int,
            id,
        ))
}

/// The explosion over some of the links of an item.
pub open spec fn explosion_over(t: Tables, rows: Seq<ChildLink>, depth: nat) -> Requirements {
    Map::new(
        |id: int| below_rows(t, rows, id),
        |id: int| (t.item(id), t.quantity_over(rows, id, depth)),
    )
}

/// The links that start at an item are links of the table, and they are all
/// of its links that start there.
pub proof fn lemma_links_from(t: Tables, parent: int)
    ensures
        forall|j: int|
            0 <= j < Tables::links_from(t.links, parent).len() ==> (#[trigger] Tables::links_from(
                t.links,
                parent,
            )[j]).parent_id == parent && t.has_link(
                parent,
                Tables::links_from(t.links, parent)[j].child_id as int,
            ) && t.links.contains(Tables::links_from(t.links, parent)[j]),
        forall|c: int| #[trigger]
            t.has_link(parent, c) ==> exists|j: int|
                0 <= j < Tables::links_from(t.links, parent).len() && (#[trigger] Tables::links_from(
                    t.links,
                    parent,
                )[j]).child_id == c,
{
    let pred = |l: ChildLink| l.parent_id == parent;
    let rows = Tables::links_from(t.links, parent);
    assert(rows == t.links.filter(pred));
    assert forall|j: int| 0 <= j < rows.len() implies (#[trigger] rows[j]).parent_id == parent
        && t.has_link(parent, rows[j].child_id as int) && t.links.contains(rows[j]) by {
        t.links.lemma_filter_pred(pred, j);
        assert(rows.contains(rows[j]));
        t.links.lemma_filter_contains_rev(pred, rows[j]);
        let i = choose|i: int| 0 <= i < t.links.len() && t.links[i] == rows[j];
        assert(t.links[i].parent_id == parent);
    }
    assert forall|c: int| #[trigger] t.has_link(parent, c) implies exists|j: int|
        0 <= j < rows.len() && (#[trigger] rows[j]).child_id == c by {
        let i = choose|i: int|
            0 <= i < t.links.len() && (#[trigger] t.links[i]).parent_id == parent
                && t.links[i].child_id == c;
        t.links.lemma_filter_contains(pred, i);
        let j = choose|j: int| 0 <= j < rows.len() && rows[j] == t.links[i];
        assert(rows[j].child_id == c);
    }
}

/// A link followed by a path is a path.
pub proof fn lemma_link_then_reach(t: Tables, from: int, via: int, to: int)
    requires
        t.has_link(from, via),
        t.reachable(via, to),
    ensures
        t.reachable(from, to),
{
    let tail = choose|path: Seq<int>|
        #[trigger] t.is_path(path) && path.len() >= 2 && path[0] == via && path.last() == to;
    let path = seq![from] + tail;
    assert forall|k: int| 0 <= k < path.len() - 1 implies t.has_link(
        #[trigger] path[k],
        path[k + 1],
    ) by {
        if k > 0 {
            assert(t.has_link(tail[k - 1], tail[k - 1 + 1]));
        }
    }
    assert(t.is_path(path));
}

/// What lies below an item is a child of it or lies below one.
pub proof fn lemma_reach_splits(t: Tables, from: int, to: int)
    requires
        t.reachable(from, to),
    ensures
        t.has_link(from, to) || exists|via: int| #[trigger]
            t.has_link(from, via) && t.reachable(via, to),
{
    let path = choose|path: Seq<int>|
        #[trigger] t.is_path(path) && path.len() >= 2 && path[0] == from && path.last() == to;
    assert(t.has_link(path[0], path[0int + 1]));
    if path.len() > 2 {
        let tail = path.drop_first();
        assert forall|k: int| 0 <= k < tail.len() - 1 implies t.has_link(
            #[trigger] tail[k],
            tail[k + 1],
        ) by {
            assert(t.has_link(path[k + 1], path[k + 1 + 1]));
        }
        assert(t.is_path(tail));
        assert(t.reachable(path[1], to));
    }
}

/// A way that is too deep for a child is too deep for its parent, one level
/// up.
pub proof fn lemma_deeper_up(t: Tables, parent: int, child: int, depth: nat)
    requires
        t.has_link(parent, child),
        t.deeper_than(child, depth),
    ensures
        t.deeper_than(parent, depth + 1),
{
    let tail = choose|path: Seq<int>|
        #[trigger] t.is_path(path) && path.len() > depth + 1 && path[0] == child;
    let path = seq![parent] + tail;
    assert forall|k: int| 0 <= k < path.len() - 1 implies t.has_link(
        #[trigger] path[k],
        path[k + 1],
    ) by {
        if k > 0 {
            assert(t.has_link(tail[k - 1], tail[k - 1 + 1]));
        }
    }
    assert(t.is_path(path));
}

/// A way that is too deep for an item goes through a child for which it is
/// too deep, one level down.
pub proof fn lemma_deeper_down(t: Tables, parent: int, depth: nat)
    requires
        t.deeper_than(parent, depth + 1),
    ensures
        exists|child: int| #[trigger] t.has_link(parent, child) && t.deeper_than(child, depth),
{
    let path = choose|path: Seq<int>|
        #[trigger] t.is_path(path) && path.len() > depth + 1 + 1 && path[0] == parent;
    assert(t.has_link(path[0], path[0int + 1]));
    let tail = path.drop_first();
    assert forall|k: int| 0 <= k < tail.len() - 1 implies t.has_link(
        #[trigger] tail[k],
        tail[k + 1],
    ) by {
        assert(t.has_link(path[k + 1], path[k + 1 + 1]));
    }
    assert(t.is_path(tail));
    assert(t.deeper_than(path[1], depth));
}

/// Links require nothing of an item that is neither a child of one of them
/// nor below one.
pub proof fn lemma_nothing_required(t: Tables, rows: Seq<ChildLink>, id: int, depth: nat)
    requires
        !below_rows(t, rows, id),
    ensures
        t.quantity_over(rows, id, depth) == 0,
    decreases depth, rows.len(),
{
    if depth > 0 && rows.len() > 0 {
        let row = rows.last();
        let front = rows.drop_last();
        assert(rows[rows.len() - 1] == row);
        assert(row.child_id != id);
        assert(!t.reachable(row.child_id as int, id));
        assert(!below_rows(t, front, id)) by {
            if below_rows(t, front, id) {
                let j = choose|j: int|
                    0 <= j < front.len() && ((#[trigger] front[j]).child_id == id || t.reachable(
                        front[j].child_id as int,
                        id,
                    ));
                assert(rows[j] == front[j]);
            }
        }
        lemma_nothing_required(t, front, id, depth);
        let inner = Tables::links_from(t.links, row.child_id as int);
        assert(!below_rows(t, inner, id)) by {
            if below_rows(t, inner, id) {
                let j = choose|j: int|
                    0 <= j < inner.len() && ((#[trigger] inner[j]).child_id == id || t.reachable(
                        inner[j].child_id as int,
                        id,
                    ));
                lemma_links_from(t, row.child_id as int);
                assert(t.has_link(row.child_id as int, inner[j].child_id as int));
                if inner[j].child_id == id {
                    crate::rules::lemma_link_reaches(t, row.child_id as int, id);
                } else {
                    lemma_link_then_reach(t, row.child_id as int, inner[j].child_id as int, id);
                }
            }
        }
        lemma_nothing_required(t, inner, id, (depth - 1) as nat);
    }
}

/// Some of the links of an item require no more than all of them.
pub proof fn lemma_quantity_over_grows(
    t: Tables,
    rows: Seq<ChildLink>,
    k: int,
    id: int,
    depth: nat,
)
    requires
        0 <= k <= rows.len(),
    ensures
        t.quantity_over(rows.take(k), id, depth) <= t.quantity_over(rows, id, depth),
    decreases rows.len() - k,
{
    if k == rows.len() {
        assert(rows.take(k) =~= rows);
    } else if depth > 0 {
        lemma_quantity_over_grows(t, rows.drop_last(), k, id, depth);
        assert(rows.drop_last().take(k) =~= rows.take(k));
    } else {
    }
}

/// What an item requires through one more link: the explosion over the links
/// so far, with the quantity of the link added for its child and the explosion
/// of the child merged in.
pub proof fn lemma_explosion_over_push(t: Tables, rows: Seq<ChildLink>, row: ChildLink, depth: nat)
    requires
        t.valid(),
        depth > 0,
        t.has_item(row.child_id as int),
    ensures
        explosion_over(t, rows.push(row), depth) == merged(
            with_quantity(
                explosion_over(t, rows, (depth) as nat),
                t.item(row.child_id as int),
                row.quantity as nat,
            ),
            t.explosion_within(row.child_id as int, (depth - 1) as nat),
        ),
{
    let c = row.child_id as int;
    let more = rows.push(row);
    let before = explosion_over(t, rows, depth);
    let base = with_quantity(before, t.item(c), row.quantity as nat);
    let sub = t.explosion_within(c, (depth - 1) as nat);
    let sum = merged(base, sub);
    let target = explosion_over(t, more, depth);
    assert(t.item(c).id == c);
    assert(more.drop_last() =~= rows);
    assert(more.last() == row);
    assert forall|id: int| target.dom().contains(id) <==> sum.dom().contains(id) by {
        if below_rows(t, more, id) {
            let j = choose|j: int|
                0 <= j < more.len() && ((#[trigger] more[j]).child_id == id || t.reachable(
                    more[j].child_id as int,
                    id,
                ));
            if j < rows.len() {
                assert(rows[j] == more[j]);
                assert(below_rows(t, rows, id));
            }
        }
        if below_rows(t, rows, id) {
            let j = choose|j: int|
                0 <= j < rows.len() && ((#[trigger] rows[j]).child_id == id || t.reachable(
                    rows[j].child_id as int,
                    id,
                ));
            assert(more[j] == rows[j]);
        }
        if id == c || t.reachable(c, id) {
            assert(more[rows.len() as int] == row);
            assert(below_rows(t, more, id));
        }
    }
    assert forall|id: int| target.dom().contains(id) implies #[trigger] target[id] == sum[id] by {
        if !below_rows(t, rows, id) {
            lemma_nothing_required(t, rows, id, depth);
        }
        if !t.reachable(c, id) {
            let inner = Tables::links_from(t.links, c);
            assert(!below_rows(t, inner, id)) by {
                if below_rows(t, inner, id) {
                    let j = choose|j: int|
                        0 <= j < inner.len() && ((#[trigger] inner[j]).child_id == id
                            || t.reachable(inner[j].child_id as int, id));
                    lemma_links_from(t, c);
                    assert(t.has_link(c, inner[j].child_id as int));
                    if inner[j].child_id == id {
                        crate::rules::lemma_link_reaches(t, c, id);
                    } else {
                        lemma_link_then_reach(t, c, inner[j].child_id as int, id);
                    }
                }
            }
            lemma_nothing_required(t, inner, id, (depth - 1) as nat);
        }
        assert(quantity_in(before, id) == t.quantity_over(rows, id, depth));
        assert(quantity_in(sub, id) == t.quantity_below(c, id, (depth - 1) as nat));
        assert(quantity_in(base, id) == quantity_in(before, id) + if id == c {
            row.quantity as nat
        } else {
            0nat
        });
    }
    assert(target =~= sum);
}

/// The explosion over all the links of an item is the explosion of the item.
pub proof fn lemma_explosion_over_all(t: Tables, root: int, depth: nat)
    ensures
        explosion_over(t, Tables::links_from(t.links, root), depth) == t.explosion_within(
            root,
            depth,
        ),
{
    let rows = Tables::links_from(t.links, root);
    lemma_links_from(t, root);
    assert forall|id: int| below_rows(t, rows, id) <==> t.reachable(root, id) by {
        if below_rows(t, rows, id) {
            let j = choose|j: int|
                0 <= j < rows.len() && ((#[trigger] rows[j]).child_id == id || t.reachable(
                    rows[j].child_id as int,
                    id,
                ));
            assert(t.has_link(root, rows[j].child_id as int));
            if rows[j].child_id == id {
                crate::rules::lemma_link_reaches(t, root, id);
            } else {
                lemma_link_then_reach(t, root, rows[j].child_id as int, id);
            }
        }
        if t.reachable(root, id) {
            lemma_reach_splits(t, root, id);
            if t.has_link(root, id) {
                let j = choose|j: int| 0 <= j < rows.len() && (#[trigger] rows[j]).child_id == id;
                assert(below_rows(t, rows, id));
            } else {
                let via = choose|via: int| #[trigger]
                    t.has_link(root, via) && t.reachable(via, id);
                let j = choose|j: int| 0 <= j < rows.len() && (#[trigger] rows[j]).child_id == via;
                assert(below_rows(t, rows, id));
            }
        }
    }
    assert(explosion_over(t, rows, depth) =~= t.explosion_within(root, depth));
}

/// Explodes the bill of materials of `root` over `depth` levels. `None` where
/// a way down from `root` has more links than that, or a quantity does not
/// fit the machine word.
pub fn explode(db: &Database, root: i64, depth: usize) -> (r: Option<Report>)
    requires
        db.wf(),
    ensures
        match r {
            Some(report) => {
                &&& report.wf()
                &&& db@.fits_within(root as int, depth as nat)
                &&& report@ == db@.explosion_within(root as int, depth as nat)
            },
            None => !db@.fits_within(root as int, depth as nat),
        },
    decreases depth,
{
    let ghost t = db@;
    let ghost rows = Tables::links_from(t.links, root as int);
    proof {
        db.lemma_wf_valid();
        lemma_links_from(t, root as int);
    }
    let kids = match db.children_of(root) {
        Ok(kids) => kids,
        Err(_) => {
            return None;
        },
    };
    assert(kids@.len() == rows.len()) by {
        assert(child_rows(kids@).len() == kids@.len());
    }
    let mut report = Report::new();
    if kids.len() == 0 {
        proof {
            assert(!t.deeper_than(root as int, depth as nat)) by {
                if t.deeper_than(root as int, depth as nat) {
                    let path = choose|path: Seq<int>|
                        #[trigger] t.is_path(path) && path.len() > depth + 1 && path[0]
                            == root as int;
                    assert(t.has_link(path[0], path[0int + 1]));
                }
            }
            assert forall|id: int| !t.reachable(root as int, id) by {
                if t.reachable(root as int, id) {
                    lemma_reach_splits(t, root as int, id);
                }
            }
            assert(report@ =~= t.explosion_within(root as int, depth as nat));
        }
        return Some(report);
    }
    if depth == 0 {
        proof {
            assert(t.has_link(root as int, rows[0].child_id as int));
            let path = seq![root as int, rows[0].child_id as int];
            assert(t.is_path(path));
        }
        return None;
    }
    let mut k: usize = 0;
    assert(report@ =~= explosion_over(t, rows.take(0), depth as nat));
    while k < kids.len()
        invariant
            db.wf(),
            t == db@,
            t.valid(),
            depth > 0,
            rows == Tables::links_from(t.links, root as int),
            kids@.len() == rows.len(),
            child_rows(kids@) == t.children_of(root as int),
            k <= kids@.len(),
            report.wf(),
            report@ == explosion_over(t, rows.take(k as int), depth as nat),
            forall|j: int|
                0 <= j < k ==> !t.deeper_than((#[trigger] rows[j]).child_id as int, (depth - 1) as nat),
        decreases kids@.len() - k,
    {
        let kid = &kids[k];
        let ghost row = rows[k as int];
        let ghost c = row.child_id as int;
        proof {
            lemma_links_from(t, root as int);
            assert(t.links.contains(row));
            let i = choose|i: int| 0 <= i < t.links.len() && t.links[i] == row;
            assert(t.has_item(t.links[i].child_id as int));
            assert(child_rows(kids@)[k as int] == (t.items[row.child_id - 1], row.quantity as nat));
            assert(kid.0@ == t.item(c));
            assert(t.item(c).id == c);
            assert(rows.take(k + 1) =~= rows.take(k as int).push(row));
            lemma_explosion_over_push(t, rows.take(k as int), row, depth as nat);
            lemma_quantity_over_grows(t, rows, k + 1, c, depth as nat);
        }
        let child_id = kid.0.id();
        let sub = match explode(db, child_id, depth - 1) {
            Some(sub) => sub,
            None => {
                proof {
                    if t.deeper_than(c, (depth - 1) as nat) {
                        lemma_deeper_up(t, root as int, c, (depth - 1) as nat);
                    } else {
                        let id = choose|id: int| #[trigger]
                            t.quantity_below(c, id, (depth - 1) as nat) > usize::MAX;
                        lemma_quantity_over_grows(t, rows, k + 1, id, depth as nat);
                        assert(t.quantity_over(rows.take(k + 1), id, depth as nat)
                            >= t.quantity_below(c, id, (depth - 1) as nat)) by {
                            assert(rows.take(k + 1).last() == row);
                        }
                        assert(t.quantity_below(root as int, id, depth as nat) > usize::MAX);
                    }
                }
                return None;
            },
        };
        let fits = report.add(ChildRef { item: &kid.0, quantity: kid.1 }, sub);
        if !fits {
            proof {
                let sum = explosion_over(t, rows.take(k + 1), depth as nat);
                let id = choose|id: int| sum.dom().contains(id) && (#[trigger] sum[id]).1
                    > usize::MAX;
                lemma_quantity_over_grows(t, rows, k + 1, id, depth as nat);
                assert(t.quantity_below(root as int, id, depth as nat) > usize::MAX);
            }
            return None;
        }
        k += 1;
    }
    proof {
        assert(rows.take(k as int) =~= rows);
        lemma_explosion_over_all(t, root as int, depth as nat);
        report.lemma_wf_view();
        assert(!t.deeper_than(root as int, depth as nat)) by {
            if t.deeper_than(root as int, depth as nat) {
                lemma_deeper_down(t, root as int, (depth - 1) as nat);
                let child = choose|child: int| #[trigger]
                    t.has_link(root as int, child) && t.deeper_than(child, (depth - 1) as nat);
                let j = choose|j: int| 0 <= j < rows.len() && (#[trigger] rows[j]).child_id == child;
                assert(!t.deeper_than(rows[j].child_id as int, (depth - 1) as nat));
            }
        }
        assert forall|id: int| #[trigger]
            t.quantity_below(root as int, id, depth as nat) <= usize::MAX by {
            if t.reachable(root as int, id) {
                assert(report@.dom().contains(id));
                assert(report@[id].1 <= usize::MAX);
            } else {
                assert(!below_rows(t, rows, id)) by {
                    assert(!explosion_over(t, rows, depth as nat).dom().contains(id));
                }
                lemma_nothing_required(t, rows, id, depth as nat);
            }
        }
    }
    Some(report)
}

} // verus!
