//! The business rules, stated over the tables as plain values: which items can
//! be edited or released, and how obsolescence spreads upward.

use crate::database::{ItemMaturity, ItemView, Strategy, Tables};
use crate::error::Error;
use vstd::prelude::*;

verus! {

impl Tables {
    /// Whether the bill of materials of an item can be edited: the item is
    /// stored, designed in house and still in progress.
    pub open spec fn editable(self, id: int) -> bool {
        &&& self.has_item(id)
        &&& self.item(id).strategy == Strategy::Make
        &&& self.item(id).maturity == ItemMaturity::InProgress
    }

    /// Why a child cannot be added to the bill of materials of this parent,
    /// if it cannot: the parent is not stored, or not editable, or the tables
    /// refuse the link.
    pub open spec fn add_child_refusal(self, parent: int, child: int) -> Option<Error> {
        if !self.has_item(parent) {
            Some(Error::NotFound)
        } else if !self.editable(parent) {
            Some(Error::CantAddChild)
        } else {
            self.link_refusal(parent, child)
        }
    }

    /// Why a child cannot be removed from the bill of materials of this
    /// parent, if it cannot: the parent is not stored, or not editable, or
    /// the tables hold no such link.
    pub open spec fn remove_child_refusal(self, parent: int, child: int) -> Option<Error> {
        if !self.has_item(parent) {
            Some(Error::NotFound)
        } else if !self.editable(parent) {
            Some(Error::CantRemoveChild)
        } else {
            self.unlink_refusal(parent, child)
        }
    }

    /// Why a procured item with this part number cannot be created, if it
    /// cannot: a procured item carries the part number already, or the tables
    /// refuse the item.
    pub open spec fn buy_item_refusal(self, pn: Seq<char>) -> Option<Error> {
        if self.buy_pn_taken(pn) {
            Some(Error::DuplicatePartNumber)
        } else {
            self.insert_refusal(pn)
        }
    }

    /// Whether each element of the sequence is linked to the next as parent
    /// to child.
    pub open spec fn is_path(self, path: Seq<int>) -> bool {
        forall|k: int| 0 <= k < path.len() - 1 ==> self.has_link(#[trigger] path[k], path[k + 1])
    }

    /// Whether `to` lies below `from`: one or more links lead from `from`
    /// down to it.
    pub open spec fn reachable(self, from: int, to: int) -> bool {
        exists|path: Seq<int>|
            #[trigger] self.is_path(path) && path.len() >= 2 && path[0] == from && path.last()
                == to
    }

    /// Whether every item below this one is released.
    pub open spec fn descendants_released(self, id: int) -> bool {
        forall|below: int| #[trigger]
            self.reachable(id, below) ==> self.item(below).maturity == ItemMaturity::Released
    }

    /// Whether an item can be released: its bill of materials is editable and
    /// everything below it is released.
    pub open spec fn can_release(self, id: int) -> bool {
        self.editable(id) && self.descendants_released(id)
    }

    /// Why an item cannot be released, if it cannot: it is not stored, or it
    /// is not an item designed in house and in progress, or something below it
    /// is not released.
    pub open spec fn release_refusal(self, id: int) -> Option<Error> {
        if !self.has_item(id) {
            Some(Error::NotFound)
        } else if !self.can_release(id) {
            Some(Error::CantReleaseItem)
        } else {
            None
        }
    }

    /// Why an item cannot be made obsolete, if it cannot: it is not stored,
    /// or it is not procured.
    pub open spec fn make_obsolete_refusal(self, id: int) -> Option<Error> {
        if !self.has_item(id) {
            Some(Error::NotFound)
        } else if self.item(id).strategy != Strategy::Buy {
            Some(Error::CantMakeObsolete)
        } else {
            None
        }
    }

    /// Whether the item is stored and no longer in progress.
    pub open spec fn settled(self, id: int) -> bool {
        self.has_item(id) && self.item(id).maturity != ItemMaturity::InProgress
    }

    /// Whether each element of the sequence is settled and linked to the next
    /// as child to parent.
    pub open spec fn is_settled_climb(self, climb: Seq<int>) -> bool {
        &&& forall|k: int| 0 <= k < climb.len() ==> self.settled(#[trigger] climb[k])
        &&& forall|k: int|
            0 <= k < climb.len() - 1 ==> self.has_link(climb[k + 1], #[trigger] climb[k])
    }

    /// Whether obsolescence that starts at `target` reaches `id`: a chain of
    /// where-used links leads from the target up to it, and every item of the
    /// chain, both ends included, is settled.
    pub open spec fn in_cascade(self, target: int, id: int) -> bool {
        exists|climb: Seq<int>|
            #[trigger] self.is_settled_climb(climb) && climb.len() >= 1 && climb[0] == target
                && climb.last() == id
    }

    /// The tables after obsolescence has spread from `target`: every item
    /// that the cascade reaches is obsolete, and nothing else has changed.
    pub open spec fn after_cascade(self, target: int) -> Tables {
        Tables {
            items: Seq::new(
                self.items.len(),
                |i: int|
                    if self.in_cascade(target, i + 1) {
                        ItemView { maturity: ItemMaturity::Obsolete, ..self.items[i] }
                    } else {
                        self.items[i]
                    },
            ),
            ..self
        }
    }
}

/// A link is a path of one step.
pub proof fn lemma_link_reaches(t: Tables, from: int, to: int)
    requires
        t.has_link(from, to),
    ensures
        t.reachable(from, to),
{
    let path = seq![from, to];
    assert(t.is_path(path));
}

/// A path followed by a link is a path.
pub proof fn lemma_reach_then_link(t: Tables, from: int, via: int, to: int)
    requires
        t.reachable(from, via),
        t.has_link(via, to),
    ensures
        t.reachable(from, to),
{
    let head = choose|path: Seq<int>|
        #[trigger] t.is_path(path) && path.len() >= 2 && path[0] == from && path.last() == via;
    let path = head.push(to);
    assert forall|k: int| 0 <= k < path.len() - 1 implies t.has_link(
        #[trigger] path[k],
        path[k + 1],
    ) by {
        if k < head.len() - 1 {
            assert(t.has_link(head[k], head[k + 1]));
        }
    }
    assert(t.is_path(path));
}

proof fn lemma_path_stays_inside(t: Tables, path: Seq<int>, inside: spec_fn(int) -> bool, k: int)
    requires
        t.is_path(path),
        1 <= k < path.len(),
        forall|c: int| #[trigger] t.has_link(path[0], c) ==> inside(c),
        forall|v: int, c: int| inside(v) && #[trigger] t.has_link(v, c) ==> inside(c),
    ensures
        inside(path[k]),
    decreases k,
{
    if k == 1 {
        assert(t.has_link(path[0], path[1]));
    } else {
        lemma_path_stays_inside(t, path, inside, k - 1);
        assert(t.has_link(path[k - 1], path[k - 1 + 1]));
    }
}

/// A set that holds the children of `from` and, with each of its members, the
/// children of that member, holds everything below `from`.
pub proof fn lemma_closed_set_holds_reachable(t: Tables, from: int, inside: spec_fn(int) -> bool)
    requires
        forall|c: int| #[trigger] t.has_link(from, c) ==> inside(c),
        forall|v: int, c: int| inside(v) && #[trigger] t.has_link(v, c) ==> inside(c),
    ensures
        forall|to: int| #[trigger] t.reachable(from, to) ==> inside(to),
{
    assert forall|to: int| #[trigger] t.reachable(from, to) implies inside(to) by {
        let path = choose|path: Seq<int>|
            #[trigger] t.is_path(path) && path.len() >= 2 && path[0] == from && path.last() == to;
        lemma_path_stays_inside(t, path, inside, path.len() - 1);
    }
}

/// A settled item is reached by the cascade that starts at it.
pub proof fn lemma_cascade_start(t: Tables, target: int)
    requires
        t.settled(target),
    ensures
        t.in_cascade(target, target),
{
    let climb = seq![target];
    assert(t.is_settled_climb(climb));
}

/// The cascade goes on from an item that it reaches to each settled parent.
pub proof fn lemma_cascade_step(t: Tables, target: int, id: int, parent: int)
    requires
        t.in_cascade(target, id),
        t.has_link(parent, id),
        t.settled(parent),
    ensures
        t.in_cascade(target, parent),
{
    let head = choose|climb: Seq<int>|
        #[trigger] t.is_settled_climb(climb) && climb.len() >= 1 && climb[0] == target
            && climb.last() == id;
    let climb = head.push(parent);
    assert forall|k: int| 0 <= k < climb.len() implies t.settled(#[trigger] climb[k]) by {
        if k < head.len() {
            assert(t.settled(head[k]));
        }
    }
    assert forall|k: int| 0 <= k < climb.len() - 1 implies t.has_link(
        climb[k + 1],
        #[trigger] climb[k],
    ) by {
        if k < head.len() - 1 {
            assert(t.has_link(head[k + 1], head[k]));
        }
    }
    assert(t.is_settled_climb(climb));
}

proof fn lemma_climb_stays_inside(
    t: Tables,
    climb: Seq<int>,
    inside: spec_fn(int) -> bool,
    k: int,
)
    requires
        t.is_settled_climb(climb),
        0 <= k < climb.len(),
        inside(climb[0]),
        forall|v: int, p: int|
            inside(v) && #[trigger] t.has_link(p, v) && t.settled(p) ==> inside(p),
    ensures
        inside(climb[k]),
    decreases k,
{
    if k > 0 {
        lemma_climb_stays_inside(t, climb, inside, k - 1);
        assert(t.has_link(climb[k - 1 + 1], climb[k - 1]));
        assert(t.settled(climb[k]));
    }
}

/// A set that holds the target and, with each of its members, the settled
/// parents of that member, holds everything that the cascade reaches.
pub proof fn lemma_closed_set_holds_cascade(t: Tables, target: int, inside: spec_fn(int) -> bool)
    requires
        inside(target),
        forall|v: int, p: int|
            inside(v) && #[trigger] t.has_link(p, v) && t.settled(p) ==> inside(p),
    ensures
        forall|id: int| #[trigger] t.in_cascade(target, id) ==> inside(id),
{
    assert forall|id: int| #[trigger] t.in_cascade(target, id) implies inside(id) by {
        let climb = choose|climb: Seq<int>|
            #[trigger] t.is_settled_climb(climb) && climb.len() >= 1 && climb[0] == target
                && climb.last() == id;
        lemma_climb_stays_inside(t, climb, inside, climb.len() - 1);
    }
}

} // verus!
