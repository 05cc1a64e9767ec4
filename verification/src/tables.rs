//! The three tables of the catalog as plain values, with their schema
//! constraints and the changes that the operations make to them.

use crate::error::{Error, StorageFault};
use crate::item::{Item, ItemMaturity, ItemView, Strategy};
use vstd::prelude::*;

verus! {

/// A directed edge of the bill of materials: `quantity` units of the child go
/// into one unit of the parent.
#[derive(Clone, Copy, Debug, PartialEq, Eq, Structural)]
pub struct ChildLink {
    pub parent_id: i64,
    pub child_id: i64,
    pub quantity: usize,
}

/// The three tables as plain values: the items in the order of their
/// identifiers, the links in the order in which they were added, and the
/// configuration entries.
pub ghost struct Tables {
    pub items: Seq<ItemView>,
    pub links: Seq<ChildLink>,
    pub config: Map<Seq<char>, Seq<char>>,
}

impl Tables {
    /// Tables that hold nothing.
    pub open spec fn empty() -> Tables {
        Tables { items: Seq::empty(), links: Seq::empty(), config: Map::empty() }
    }

    /// Whether an item with this identifier is stored.
    pub open spec fn has_item(self, id: int) -> bool {
        1 <= id <= self.items.len()
    }

    /// The item with this identifier.
    pub open spec fn item(self, id: int) -> ItemView
        recommends
            self.has_item(id),
    {
        self.items[id - 1]
    }

    /// Whether some stored item carries this part number in this version.
    pub open spec fn pn_taken(self, pn: Seq<char>, version: nat) -> bool {
        exists|i: int|
            0 <= i < self.items.len() && (#[trigger] self.items[i]).pn == pn
                && self.items[i].version == version
    }

    /// Whether some stored item carries this part number, in any version.
    pub open spec fn pn_known(self, pn: Seq<char>) -> bool {
        exists|i: int| 0 <= i < self.items.len() && (#[trigger] self.items[i]).pn == pn
    }

    /// Whether some stored item that is procured carries this part number.
    pub open spec fn buy_pn_taken(self, pn: Seq<char>) -> bool {
        exists|i: int|
            0 <= i < self.items.len() && (#[trigger] self.items[i]).pn == pn
                && self.items[i].strategy == Strategy::Buy
    }

    /// Whether each part number is carried by one procured item at most.
    pub open spec fn buy_pns_unique(self) -> bool {
        forall|i: int, j: int|
            0 <= i < j < self.items.len() ==> !((#[trigger] self.items[i]).pn == (
            #[trigger] self.items[j]).pn && self.items[i].strategy == Strategy::Buy
                && self.items[j].strategy == Strategy::Buy)
    }

    /// Whether a link joins this parent to this child.
    pub open spec fn has_link(self, parent: int, child: int) -> bool {
        exists|i: int|
            0 <= i < self.links.len() && (#[trigger] self.links[i]).parent_id == parent
                && self.links[i].child_id == child
    }

    /// The position in the link table of the link that joins this parent to
    /// this child.
    pub open spec fn link_index(self, parent: int, child: int) -> int
        recommends
            self.has_link(parent, child),
    {
        choose|i: int|
            0 <= i < self.links.len() && (#[trigger] self.links[i]).parent_id == parent
                && self.links[i].child_id == child
    }

    /// The schema constraints: identifiers count up from one, versions are
    /// positive, no two items share a part number and a version, every link
    /// joins two stored items, and no ordered pair is linked twice.
    pub open spec fn valid(self) -> bool {
        &&& self.items.len() < i64::MAX
        &&& forall|i: int| 0 <= i < self.items.len() ==> (#[trigger] self.items[i]).id == i + 1
        &&& forall|i: int| 0 <= i < self.items.len() ==> (#[trigger] self.items[i]).version >= 1
        &&& forall|i: int, j: int|
            0 <= i < j < self.items.len() ==> !((#[trigger] self.items[i]).pn == (
            #[trigger] self.items[j]).pn && self.items[i].version == self.items[j].version)
        &&& forall|i: int|
            0 <= i < self.links.len() ==> self.has_item((#[trigger] self.links[i]).parent_id as int)
                && self.has_item(self.links[i].child_id as int)
        &&& forall|i: int, j: int|
            0 <= i < j < self.links.len() ==> !((#[trigger] self.links[i]).parent_id == (
            #[trigger] self.links[j]).parent_id && self.links[i].child_id
                == self.links[j].child_id)
    }

    /// The tables with one more item.
    pub open spec fn with_item(self, item: ItemView) -> Tables {
        Tables { items: self.items.push(item), ..self }
    }

    /// The tables with the maturity of one item replaced.
    pub open spec fn with_maturity(self, id: int, maturity: ItemMaturity) -> Tables
        recommends
            self.has_item(id),
    {
        Tables {
            items: self.items.update(id - 1, ItemView { maturity, ..self.item(id) }),
            ..self
        }
    }

    /// The tables with one more link.
    pub open spec fn with_link(self, link: ChildLink) -> Tables {
        Tables { links: self.links.push(link), ..self }
    }

    /// The tables without the link that joins this parent to this child.
    pub open spec fn without_link(self, parent: int, child: int) -> Tables
        recommends
            self.has_link(parent, child),
    {
        Tables { links: self.links.remove(self.link_index(parent, child)), ..self }
    }

    /// The tables with one configuration entry written.
    pub open spec fn with_config(self, key: Seq<char>, value: Seq<char>) -> Tables {
        Tables { config: self.config.insert(key, value), ..self }
    }

    /// The value stored under a configuration key; the empty string where
    /// nothing is stored.
    pub open spec fn config_value(self, key: Seq<char>) -> Seq<char> {
        if self.config.dom().contains(key) {
            self.config[key]
        } else {
            Seq::empty()
        }
    }

    /// Those of the given links that start at this parent, in order.
    pub open spec fn links_from(links: Seq<ChildLink>, parent: int) -> Seq<ChildLink> {
        links.filter(|l: ChildLink| l.parent_id == parent)
    }

    /// Those of the given links that end at this child, in order.
    pub open spec fn links_to(links: Seq<ChildLink>, child: int) -> Seq<ChildLink> {
        links.filter(|l: ChildLink| l.child_id == child)
    }

    /// The children that the given links give this parent, each with its
    /// quantity.
    pub open spec fn children_among(
        items: Seq<ItemView>,
        links: Seq<ChildLink>,
        parent: int,
    ) -> Seq<(ItemView, nat)> {
        Self::links_from(links, parent).map_values(
            |l: ChildLink| (items[l.child_id - 1], l.quantity as nat),
        )
    }

    /// The parents that the given links give this child.
    pub open spec fn parents_among(
        items: Seq<ItemView>,
        links: Seq<ChildLink>,
        child: int,
    ) -> Seq<ItemView> {
        Self::links_to(links, child).map_values(|l: ChildLink| items[l.parent_id - 1])
    }

    /// The direct children of an item, each with its quantity, in the order
    /// in which they were linked.
    pub open spec fn children_of(self, parent: int) -> Seq<(ItemView, nat)> {
        Self::children_among(self.items, self.links, parent)
    }

    /// The direct parents of an item, in the order in which they were linked.
    pub open spec fn parents_of(self, child: int) -> Seq<ItemView> {
        Self::parents_among(self.items, self.links, child)
    }

    /// An item as it is first stored: the next identifier, version one.
    pub open spec fn new_item(
        self,
        pn: Seq<char>,
        name: Seq<char>,
        strategy: Strategy,
        maturity: ItemMaturity,
    ) -> ItemView {
        ItemView { id: self.items.len() as int + 1, pn, name, version: 1, maturity, strategy }
    }

    /// Why the tables refuse to store an item with this part number, if they
    /// do.
    pub open spec fn insert_refusal(self, pn: Seq<char>) -> Option<Error> {
        if self.pn_taken(pn, 1) {
            Some(Error::StorageError(StorageFault::DuplicateItem))
        } else if self.items.len() + 1 >= i64::MAX {
            Some(Error::StorageError(StorageFault::Full))
        } else {
            None
        }
    }

    /// Why the tables refuse to link this parent to this child, if they do.
    pub open spec fn link_refusal(self, parent: int, child: int) -> Option<Error> {
        if !self.has_item(parent) || !self.has_item(child) {
            Some(Error::StorageError(StorageFault::UnknownItem))
        } else if self.has_link(parent, child) {
            Some(Error::StorageError(StorageFault::DuplicateLink))
        } else {
            None
        }
    }

    /// Why the tables refuse to remove the link of this parent to this child,
    /// if they do.
    pub open spec fn unlink_refusal(self, parent: int, child: int) -> Option<Error> {
        if self.has_link(parent, child) {
            None
        } else {
            Some(Error::StorageError(StorageFault::MissingLink))
        }
    }

    /// The position of the first item that carries this part number.
    pub open spec fn first_with_pn(self, pn: Seq<char>) -> int
        recommends
            self.pn_known(pn),
    {
        choose|i: int|
            0 <= i < self.items.len() && (#[trigger] self.items[i]).pn == pn && forall|j: int|
                0 <= j < i ==> (#[trigger] self.items[j]).pn != pn
    }
}

/// What a sequence of items is, as plain values.
pub open spec fn item_views(items: Seq<Item>) -> Seq<ItemView> {
    items.map_values(|item: Item| item@)
}

/// What a sequence of children with their quantities is, as plain values.
pub open spec fn child_rows(kids: Seq<(Item, usize)>) -> Seq<(ItemView, nat)> {
    kids.map_values(|kid: (Item, usize)| (kid.0@, kid.1 as nat))
}

/// One more link adds at most one child, at the end.
pub proof fn lemma_children_among_push(
    items: Seq<ItemView>,
    links: Seq<ChildLink>,
    link: ChildLink,
    parent: int,
)
    ensures
        Tables::children_among(items, links.push(link), parent) == if link.parent_id == parent {
            Tables::children_among(items, links, parent).push(
                (items[link.child_id - 1], link.quantity as nat),
            )
        } else {
            Tables::children_among(items, links, parent)
        },
{
    links.lemma_filter_push(link, |l: ChildLink| l.parent_id == parent);
    assert(Tables::children_among(items, links.push(link), parent) =~= if link.parent_id
        == parent {
        Tables::children_among(items, links, parent).push(
            (items[link.child_id - 1], link.quantity as nat),
        )
    } else {
        Tables::children_among(items, links, parent)
    });
}

/// One more link adds at most one parent, at the end.
pub proof fn lemma_parents_among_push(
    items: Seq<ItemView>,
    links: Seq<ChildLink>,
    link: ChildLink,
    child: int,
)
    ensures
        Tables::parents_among(items, links.push(link), child) == if link.child_id == child {
            Tables::parents_among(items, links, child).push(items[link.parent_id - 1])
        } else {
            Tables::parents_among(items, links, child)
        },
{
    links.lemma_filter_push(link, |l: ChildLink| l.child_id == child);
    assert(Tables::parents_among(items, links.push(link), child) =~= if link.child_id == child {
        Tables::parents_among(items, links, child).push(items[link.parent_id - 1])
    } else {
        Tables::parents_among(items, links, child)
    });
}

} // verus!
