//! What holds of the catalog whatever it stores: the laws that the business
//! rules obey, each stated over the tables as plain values and proved.

use crate::database::{ChildLink, ItemMaturity, Strategy, Tables};
use crate::error::{Error, StorageFault};
use crate::explosion::lemma_links_from;
use vstd::prelude::*;

verus! {

/// How far along its lifecycle a maturity is.
pub open spec fn rank(maturity: ItemMaturity) -> nat {
    match maturity {
        ItemMaturity::InProgress => 0,
        ItemMaturity::Released => 1,
        ItemMaturity::Obsolete => 2,
    }
}

/// An item is released exactly when it is stored, designed in house and in
/// progress, and every item below it is released.
pub proof fn lemma_release_accepted_iff(t: Tables, id: int)
    ensures
        t.release_refusal(id) is None <==> {
            &&& t.has_item(id)
            &&& t.item(id).strategy == Strategy::Make
            &&& t.item(id).maturity == ItemMaturity::InProgress
            &&& forall|below: int| #[trigger]
                t.reachable(id, below) ==> t.item(below).maturity == ItemMaturity::Released
        },
{
}

/// Where the parent and the child are stored and not linked yet, the child
/// is added exactly when the parent is designed in house and in progress.
pub proof fn lemma_add_child_accepted_iff(t: Tables, parent: int, child: int)
    requires
        t.has_item(parent),
        t.has_item(child),
        !t.has_link(parent, child),
    ensures
        t.add_child_refusal(parent, child) is None <==> t.item(parent).strategy == Strategy::Make
            && t.item(parent).maturity == ItemMaturity::InProgress,
{
}

/// Once a child is added, the children of the parent list it exactly once,
/// in the last place and with the quantity given.
pub proof fn lemma_added_child_listed_once(
    t: Tables,
    parent_id: i64,
    child_id: i64,
    quantity: usize,
)
    requires
        t.valid(),
        t.add_child_refusal(parent_id as int, child_id as int) is None,
    ensures
        ({
            let after = t.with_link(ChildLink { parent_id, child_id, quantity });
            let children = after.children_of(parent_id as int);
            &&& after.valid()
            &&& children == t.children_of(parent_id as int).push(
                (t.item(child_id as int), quantity as nat),
            )
            &&& forall|k: int|
                0 <= k < children.len() ==> ((#[trigger] children[k]).0.id == child_id <==> k
                    == children.len() - 1)
        }),
{
    let link = ChildLink { parent_id, child_id, quantity };
    let after = t.with_link(link);
    let before = t.children_of(parent_id as int);
    let children = after.children_of(parent_id as int);
    crate::database::lemma_children_among_push(t.items, t.links, link, parent_id as int);
    assert(after.valid()) by {
        assert forall|i: int| 0 <= i < after.links.len() implies after.has_item(
            (#[trigger] after.links[i]).parent_id as int,
        ) && after.has_item(after.links[i].child_id as int) by {
            if i < t.links.len() {
                assert(t.has_item(t.links[i].parent_id as int));
            }
        }
        assert forall|i: int, j: int| 0 <= i < j < after.links.len() implies !((
        #[trigger] after.links[i]).parent_id == (#[trigger] after.links[j]).parent_id
            && after.links[i].child_id == after.links[j].child_id) by {
            if j < t.links.len() {
                assert(!(t.links[i].parent_id == t.links[j].parent_id && t.links[i].child_id
                    == t.links[j].child_id));
            } else {
                assert(t.links[i].parent_id == parent_id ==> t.links[i].child_id != child_id);
            }
        }
    }
    lemma_links_from(t, parent_id as int);
    let rows = Tables::links_from(t.links, parent_id as int);
    assert forall|k: int| 0 <= k < children.len() implies ((#[trigger] children[k]).0.id
        == child_id <==> k == children.len() - 1) by {
        if k < before.len() {
            assert(children[k] == before[k]);
            assert(before[k] == (t.items[rows[k].child_id - 1], rows[k].quantity as nat));
            assert(t.links.contains(rows[k]));
            let i = choose|i: int| 0 <= i < t.links.len() && t.links[i] == rows[k];
            assert(t.has_item(t.links[i].child_id as int));
            assert(t.has_link(parent_id as int, rows[k].child_id as int));
        }
    }
}

/// The same child cannot be added to the same parent a second time: the
/// tables refuse the link as a duplicate, whatever the quantity.
pub proof fn lemma_second_add_child_refused(
    t: Tables,
    parent_id: i64,
    child_id: i64,
    quantity: usize,
)
    requires
        t.add_child_refusal(parent_id as int, child_id as int) is None,
    ensures
        t.with_link(ChildLink { parent_id, child_id, quantity }).add_child_refusal(
            parent_id as int,
            child_id as int,
        ) == Some(Error::StorageError(StorageFault::DuplicateLink)),
{
    let after = t.with_link(ChildLink { parent_id, child_id, quantity });
    assert(after.links[t.links.len() as int].parent_id == parent_id);
    assert(after.has_link(parent_id as int, child_id as int));
}

/// A part number is given to one procured item at most: once a procured
/// item is created, a second one with its part number is refused.
pub proof fn lemma_second_buy_refused(t: Tables, pn: Seq<char>, name: Seq<char>)
    requires
        t.buy_item_refusal(pn) is None,
    ensures
        t.with_item(
            t.new_item(pn, name, Strategy::Buy, ItemMaturity::Released),
        ).buy_item_refusal(pn) == Some(Error::DuplicatePartNumber),
{
    let item = t.new_item(pn, name, Strategy::Buy, ItemMaturity::Released);
    let after = t.with_item(item);
    assert(after.items[t.items.len() as int] == item);
}

/// Creating a procured item leaves each part number with one procured item
/// at most.
pub proof fn lemma_buy_keeps_pns_unique(t: Tables, pn: Seq<char>, name: Seq<char>)
    requires
        t.buy_pns_unique(),
        t.buy_item_refusal(pn) is None,
    ensures
        t.with_item(t.new_item(pn, name, Strategy::Buy, ItemMaturity::Released)).buy_pns_unique(),
{
    let item = t.new_item(pn, name, Strategy::Buy, ItemMaturity::Released);
    let after = t.with_item(item);
    assert forall|i: int, j: int| 0 <= i < j < after.items.len() implies !((
    #[trigger] after.items[i]).pn == (#[trigger] after.items[j]).pn && after.items[i].strategy
        == Strategy::Buy && after.items[j].strategy == Strategy::Buy) by {
        if j < t.items.len() {
            assert(!(t.items[i].pn == t.items[j].pn && t.items[i].strategy == Strategy::Buy
                && t.items[j].strategy == Strategy::Buy));
        } else {
            assert(!(t.items[i].pn == pn && t.items[i].strategy == Strategy::Buy));
        }
    }
}

/// Storing an item keeps the schema constraints, and gives the item an
/// identifier that no stored item has.
pub proof fn lemma_insert_keeps_valid(
    t: Tables,
    pn: Seq<char>,
    name: Seq<char>,
    strategy: Strategy,
    maturity: ItemMaturity,
)
    requires
        t.valid(),
        t.insert_refusal(pn) is None,
    ensures
        t.with_item(t.new_item(pn, name, strategy, maturity)).valid(),
        !t.has_item(t.new_item(pn, name, strategy, maturity).id),
        t.with_item(t.new_item(pn, name, strategy, maturity)).links == t.links,
{
    let item = t.new_item(pn, name, strategy, maturity);
    let after = t.with_item(item);
    assert forall|i: int, j: int| 0 <= i < j < after.items.len() implies !((
    #[trigger] after.items[i]).pn == (#[trigger] after.items[j]).pn && after.items[i].version
        == after.items[j].version) by {
        if j < t.items.len() {
            assert(!(t.items[i].pn == t.items[j].pn && t.items[i].version == t.items[j].version));
        } else {
            assert(t.items[i].pn == pn ==> t.items[i].version != 1);
        }
    }
    assert forall|i: int| 0 <= i < after.links.len() implies after.has_item(
        (#[trigger] after.links[i]).parent_id as int,
    ) && after.has_item(after.links[i].child_id as int) by {
        assert(t.has_item(t.links[i].parent_id as int));
    }
}

/// Removing a child keeps the schema constraints, takes away that link and
/// leaves every other link where it was.
pub proof fn lemma_removed_child_gone(t: Tables, parent: int, child: int)
    requires
        t.valid(),
        t.remove_child_refusal(parent, child) is None,
    ensures
        t.without_link(parent, child).valid(),
        !t.without_link(parent, child).has_link(parent, child),
        t.without_link(parent, child).items == t.items,
        forall|p: int, c: int|
            !(p == parent && c == child) ==> (#[trigger] t.without_link(parent, child).has_link(
                p,
                c,
            ) <==> t.has_link(p, c)),
{
    let at = t.link_index(parent, child);
    let after = t.without_link(parent, child);
    assert forall|k: int| 0 <= k < after.links.len() implies after.links[k] == t.links[if k
        < at {
        k
    } else {
        k + 1
    }] by {}
    assert forall|a: int, b: int| 0 <= a < b < after.links.len() implies !((
    #[trigger] after.links[a]).parent_id == (#[trigger] after.links[b]).parent_id
        && after.links[a].child_id == after.links[b].child_id) by {
        let a0 = if a < at {
            a
        } else {
            a + 1
        };
        let b0 = if b < at {
            b
        } else {
            b + 1
        };
        assert(!(t.links[a0].parent_id == t.links[b0].parent_id && t.links[a0].child_id
            == t.links[b0].child_id));
    }
    assert forall|k: int| 0 <= k < after.links.len() implies after.has_item(
        (#[trigger] after.links[k]).parent_id as int,
    ) && after.has_item(after.links[k].child_id as int) by {
        let k0 = if k < at {
            k
        } else {
            k + 1
        };
        assert(t.has_item(t.links[k0].parent_id as int));
    }
    assert(!after.has_link(parent, child)) by {
        if after.has_link(parent, child) {
            let k = choose|k: int|
                0 <= k < after.links.len() && (#[trigger] after.links[k]).parent_id == parent
                    && after.links[k].child_id == child;
            let k0 = if k < at {
                k
            } else {
                k + 1
            };
            if k0 < at {
                assert(!(t.links[k0].parent_id == t.links[at].parent_id && t.links[k0].child_id
                    == t.links[at].child_id));
            } else {
                assert(!(t.links[at].parent_id == t.links[k0].parent_id && t.links[at].child_id
                    == t.links[k0].child_id));
            }
        }
    }
    assert forall|p: int, c: int| !(p == parent && c == child) implies (#[trigger] after.has_link(
        p,
        c,
    ) <==> t.has_link(p, c)) by {
        if after.has_link(p, c) {
            let k = choose|k: int|
                0 <= k < after.links.len() && (#[trigger] after.links[k]).parent_id == p
                    && after.links[k].child_id == c;
            let k0 = if k < at {
                k
            } else {
                k + 1
            };
            assert(t.links[k0].parent_id == p);
        }
        if t.has_link(p, c) {
            let k0 = choose|k: int|
                0 <= k < t.links.len() && (#[trigger] t.links[k]).parent_id == p
                    && t.links[k].child_id == c;
            let k = if k0 < at {
                k0
            } else {
                k0 - 1
            };
            assert(after.links[k].parent_id == p);
        }
    }
}

/// An item that is designed in house is never made obsolete on request.
pub proof fn lemma_make_obsolete_refuses_make(t: Tables, id: int)
    requires
        t.has_item(id),
        t.item(id).strategy == Strategy::Make,
    ensures
        t.make_obsolete_refusal(id) == Some(Error::CantMakeObsolete),
{
}

/// A configuration value that was written is the value that is read.
pub proof fn lemma_config_round_trip(t: Tables, key: Seq<char>, value: Seq<char>)
    ensures
        t.with_config(key, value).config_value(key) == value,
{
}

/// A configuration key that was never written reads as the empty string.
pub proof fn lemma_unset_config_is_empty(t: Tables, key: Seq<char>)
    requires
        !t.config.dom().contains(key),
    ensures
        t.config_value(key) == Seq::<char>::empty(),
        Tables::empty().config_value(key) == Seq::<char>::empty(),
{
}

/// Writing one configuration key leaves every other key as it was.
pub proof fn lemma_config_keys_independent(
    t: Tables,
    key: Seq<char>,
    value: Seq<char>,
    other: Seq<char>,
)
    requires
        other != key,
    ensures
        t.with_config(key, value).config_value(other) == t.config_value(other),
{
}

/// A release moves the item from in progress to released and changes nothing
/// else: no item and no link comes or goes.
pub proof fn lemma_release_moves_forward(t: Tables, id: int)
    requires
        t.valid(),
        t.release_refusal(id) is None,
    ensures
        ({
            let after = t.with_maturity(id, ItemMaturity::Released);
            &&& after.valid()
            &&& after.links == t.links
            &&& after.config == t.config
            &&& after.items.len() == t.items.len()
            &&& forall|other: int|
                t.has_item(other) ==> rank(t.item(other).maturity) <= rank(
                    (#[trigger] after.item(other)).maturity,
                )
            &&& forall|other: int|
                t.has_item(other) && other != id ==> #[trigger] after.item(other) == t.item(other)
        }),
{
    let after = t.with_maturity(id, ItemMaturity::Released);
    assert forall|i: int| 0 <= i < after.links.len() implies after.has_item(
        (#[trigger] after.links[i]).parent_id as int,
    ) && after.has_item(after.links[i].child_id as int) by {
        assert(t.has_item(t.links[i].parent_id as int));
    }
    assert forall|i: int, j: int| 0 <= i < j < after.items.len() implies !((
    #[trigger] after.items[i]).pn == (#[trigger] after.items[j]).pn && after.items[i].version
        == after.items[j].version) by {
        assert(!(t.items[i].pn == t.items[j].pn && t.items[i].version == t.items[j].version));
    }
}

/// The cascade of obsolescence only moves maturities forward: an item that
/// it reaches was released or obsolete and is obsolete afterwards, every
/// other item is as it was, and no item and no link comes or goes.
pub proof fn lemma_cascade_moves_forward(t: Tables, target: int)
    requires
        t.valid(),
    ensures
        ({
            let after = t.after_cascade(target);
            &&& after.valid()
            &&& after.links == t.links
            &&& after.config == t.config
            &&& after.items.len() == t.items.len()
            &&& forall|id: int|
                t.has_item(id) ==> rank(t.item(id).maturity) <= rank(
                    (#[trigger] after.item(id)).maturity,
                )
            &&& forall|id: int|
                t.has_item(id) && t.item(id).maturity == ItemMaturity::InProgress
                    ==> #[trigger] after.item(id) == t.item(id)
        }),
{
    let after = t.after_cascade(target);
    assert forall|i: int| 0 <= i < after.links.len() implies after.has_item(
        (#[trigger] after.links[i]).parent_id as int,
    ) && after.has_item(after.links[i].child_id as int) by {
        assert(t.has_item(t.links[i].parent_id as int));
    }
    assert forall|i: int, j: int| 0 <= i < j < after.items.len() implies !((
    #[trigger] after.items[i]).pn == (#[trigger] after.items[j]).pn && after.items[i].version
        == after.items[j].version) by {
        assert(!(t.items[i].pn == t.items[j].pn && t.items[i].version == t.items[j].version));
    }
    assert forall|id: int|
        t.has_item(id) && t.item(id).maturity == ItemMaturity::InProgress implies #[trigger] after.item(
        id,
    ) == t.item(id) by {
        if t.in_cascade(target, id) {
            let climb = choose|climb: Seq<int>|
                #[trigger] t.is_settled_climb(climb) && climb.len() >= 1 && climb[0] == target
                    && climb.last() == id;
            assert(t.settled(climb[climb.len() - 1]));
        }
    }
}

/// The cascade stops at an item in progress: what uses the target only
/// through items in progress stays as it was.
pub proof fn lemma_cascade_stops_in_progress(t: Tables, target: int, id: int)
    requires
        t.has_item(id),
        id != target,
        forall|child: int| #[trigger]
            t.has_link(id, child) ==> !t.settled(child) || !t.in_cascade(target, child),
    ensures
        t.after_cascade(target).item(id) == t.item(id),
{
    if t.in_cascade(target, id) {
        let climb = choose|climb: Seq<int>|
            #[trigger] t.is_settled_climb(climb) && climb.len() >= 1 && climb[0] == target
                && climb.last() == id;
        let n = climb.len();
        assert(n >= 2);
        let head = climb.drop_last();
        assert(t.has_link(climb[n - 2 + 1], climb[n - 2]));
        assert forall|k: int| 0 <= k < head.len() implies t.settled(#[trigger] head[k]) by {
            assert(t.settled(climb[k]));
        }
        assert forall|k: int| 0 <= k < head.len() - 1 implies t.has_link(
            head[k + 1],
            #[trigger] head[k],
        ) by {
            assert(t.has_link(climb[k + 1], climb[k]));
        }
        assert(t.is_settled_climb(head));
        assert(t.in_cascade(target, climb[n - 2]));
        assert(t.settled(climb[n - 2]));
    }
}

} // verus!
