//! The persistence store: the items, the links between them and the
//! configuration entries, held as three tables with their schema constraints
//! and no business rule.

use crate::error::{Error, StorageFault};
use vstd::prelude::*;

pub use crate::item::{Item, ItemMaturity, ItemView, Strategy};
pub use crate::tables::{
    child_rows, item_views, lemma_children_among_push, lemma_parents_among_push, ChildLink, Tables,
};

verus! {

/// One row of the configuration table.
struct ConfigEntry {
    key: String,
    value: String,
}

/// The mapping that a sequence of configuration rows stands for.
spec fn config_map(entries: Seq<ConfigEntry>) -> Map<Seq<char>, Seq<char>>
    decreases entries.len(),
{
    if entries.len() == 0 {
        Map::empty()
    } else {
        config_map(entries.drop_last()).insert(entries.last().key@, entries.last().value@)
    }
}

spec fn distinct_keys(entries: Seq<ConfigEntry>) -> bool {
    forall|i: int, j: int|
        0 <= i < j < entries.len() ==> (#[trigger] entries[i]).key@ != (#[trigger] entries[j]).key@
}

proof fn lemma_config_map_dom(entries: Seq<ConfigEntry>, key: Seq<char>)
    ensures
        config_map(entries).dom().contains(key) <==> exists|i: int|
            0 <= i < entries.len() && (#[trigger] entries[i]).key@ == key,
    decreases entries.len(),
{
    if entries.len() > 0 {
        let front = entries.drop_last();
        lemma_config_map_dom(front, key);
        if config_map(entries).dom().contains(key) {
            if entries.last().key@ == key {
                assert(entries[entries.len() - 1].key@ == key);
            } else {
                let i = choose|i: int| 0 <= i < front.len() && (#[trigger] front[i]).key@ == key;
                assert(entries[i].key@ == key);
            }
        }
        if exists|i: int| 0 <= i < entries.len() && (#[trigger] entries[i]).key@ == key {
            let i = choose|i: int| 0 <= i < entries.len() && (#[trigger] entries[i]).key@ == key;
            if i < front.len() {
                assert(front[i].key@ == key);
            }
        }
    }
}

proof fn lemma_config_map_value(entries: Seq<ConfigEntry>, i: int)
    requires
        distinct_keys(entries),
        0 <= i < entries.len(),
    ensures
        config_map(entries).dom().contains(entries[i].key@),
        config_map(entries)[entries[i].key@] == entries[i].value@,
    decreases entries.len(),
{
    let front = entries.drop_last();
    if i < entries.len() - 1 {
        assert(distinct_keys(front)) by {
            assert forall|a: int, b: int| 0 <= a < b < front.len() implies (#[trigger] front[a]).key@
                != (#[trigger] front[b]).key@ by {
                assert(entries[a].key@ != entries[b].key@);
            }
        }
        lemma_config_map_value(front, i);
        assert(front[i] == entries[i]);
        assert(entries[i].key@ != entries[entries.len() - 1].key@);
    }
}

/// The persistence store: three tables held in memory, with their schema
/// constraints and no business rule.
pub struct Database {
    items: Vec<Item>,
    links: Vec<ChildLink>,
    config: Vec<ConfigEntry>,
}

impl View for Database {
    type V = Tables;

    closed spec fn view(&self) -> Tables {
        Tables {
            items: self.items@.map_values(|item: Item| item@),
            links: self.links@,
            config: config_map(self.config@),
        }
    }
}

impl Database {
    /// Whether version one of a part number is stored.
    fn pn_is_taken(&self, pn: &str) -> (taken: bool)
        ensures
            taken == self@.pn_taken(pn@, 1),
    {
        let mut i: usize = 0;
        while i < self.items.len()
            invariant
                i <= self.items@.len(),
                forall|k: int|
                    0 <= k < i ==> !((#[trigger] self@.items[k]).pn == pn@ && self@.items[k].version
                        == 1),
            decreases self.items@.len() - i,
        {
            let item = &self.items[i];
            if item.version() == 1 && crate::text::same_text(item.pn(), pn) {
                assert(self@.items[i as int].pn == pn@);
                return true;
            }
            i += 1;
        }
        false
    }

    /// Whether a procured item carries this part number.
    pub fn has_buy_item(&self, pn: &str) -> (taken: bool)
        ensures
            taken == self@.buy_pn_taken(pn@),
    {
        let mut i: usize = 0;
        while i < self.items.len()
            invariant
                i <= self.items@.len(),
                forall|k: int|
                    0 <= k < i ==> !((#[trigger] self@.items[k]).pn == pn@
                        && self@.items[k].strategy == Strategy::Buy),
            decreases self.items@.len() - i,
        {
            let item = &self.items[i];
            if item.strategy() == Strategy::Buy && crate::text::same_text(item.pn(), pn) {
                assert(self@.items[i as int].pn == pn@);
                return true;
            }
            i += 1;
        }
        false
    }

    /// Whether each part number is carried by one procured item at most.
    pub fn buy_pns_unique(&self) -> (yes: bool)
        ensures
            yes == self@.buy_pns_unique(),
    {
        let count = self.items.len();
        let mut j: usize = 0;
        while j < count
            invariant
                j <= count,
                count == self.items@.len(),
                count == self@.items.len(),
                forall|a: int, b: int|
                    0 <= a < b < j ==> !((#[trigger] self@.items[a]).pn == (
                    #[trigger] self@.items[b]).pn && self@.items[a].strategy == Strategy::Buy
                        && self@.items[b].strategy == Strategy::Buy),
            decreases count - j,
        {
            let item = &self.items[j];
            assert(item@ == self@.items[j as int]);
            if item.strategy() == Strategy::Buy {
                let mut i: usize = 0;
                while i < j
                    invariant
                        i <= j,
                        j < count,
                        count == self.items@.len(),
                        count == self@.items.len(),
                        item@ == self@.items[j as int],
                        item@.strategy == Strategy::Buy,
                        forall|a: int|
                            0 <= a < i ==> !((#[trigger] self@.items[a]).pn == item@.pn
                                && self@.items[a].strategy == Strategy::Buy),
                    decreases j - i,
                {
                    let other = &self.items[i];
                    assert(other@ == self@.items[i as int]);
                    if other.strategy() == Strategy::Buy && crate::text::same_text(
                        other.pn(),
                        item.pn(),
                    ) {
                        return false;
                    }
                    i += 1;
                }
            }
            j += 1;
        }
        true
    }

    /// Stores a new item under the next identifier, in version one.
    pub fn insert_item(
        &mut self,
        pn: &str,
        name: &str,
        strategy: Strategy,
        maturity: ItemMaturity,
    ) -> (r: Result<Item, Error>)
        requires
            old(self).wf(),
        ensures
            final(self).wf(),
            match r {
                Ok(item) => {
                    &&& old(self)@.insert_refusal(pn@) is None
                    &&& item@ == old(self)@.new_item(pn@, name@, strategy, maturity)
                    &&& final(self)@ == old(self)@.with_item(item@)
                },
                Err(e) => {
                    &&& old(self)@.insert_refusal(pn@) == Some(e)
                    &&& final(self)@ == old(self)@
                },
            },
    {
        if self.pn_is_taken(pn) {
            return Err(Error::StorageError(StorageFault::DuplicateItem));
        }
        let count = self.items.len();
        if (count as u64) >= 0x7fff_ffff_ffff_fffe_u64 {
            return Err(Error::StorageError(StorageFault::Full));
        }
        let id: i64 = (count as u64 + 1) as i64;
        let item = Item::new(id, pn, name, 1, maturity, strategy);
        let stored = item.clone();
        self.items.push(stored);
        proof {
            let before = old(self)@;
            let after = self@;
            assert(after.items =~= before.items.push(item@));
            assert(after.links == before.links);
            assert(after.config == before.config);
            assert forall|i: int, j: int| 0 <= i < j < after.items.len() implies !((
            #[trigger] after.items[i]).pn == (#[trigger] after.items[j]).pn && after.items[i].version
                == after.items[j].version) by {
                if j == before.items.len() {
                    assert(before.items[i].pn == pn@ ==> before.items[i].version != 1);
                }
            }
        }
        Ok(item)
    }

    /// Stores a new item that is designed in house and in progress.
    pub fn new_make_item(&mut self, pn: &str, name: &str) -> (r: Result<Item, Error>)
        requires
            old(self).wf(),
        ensures
            final(self).wf(),
            match r {
                Ok(item) => {
                    &&& old(self)@.insert_refusal(pn@) is None
                    &&& item@ == old(self)@.new_item(
                        pn@,
                        name@,
                        Strategy::Make,
                        ItemMaturity::InProgress,
                    )
                    &&& final(self)@ == old(self)@.with_item(item@)
                },
                Err(e) => {
                    &&& old(self)@.insert_refusal(pn@) == Some(e)
                    &&& final(self)@ == old(self)@
                },
            },
    {
        self.insert_item(pn, name, Strategy::Make, ItemMaturity::InProgress)
    }

    /// Stores a new item that is procured: it exists already, so it is
    /// released from the start.
    pub fn new_buy_item(&mut self, pn: &str, name: &str) -> (r: Result<Item, Error>)
        requires
            old(self).wf(),
        ensures
            final(self).wf(),
            match r {
                Ok(item) => {
                    &&& old(self)@.insert_refusal(pn@) is None
                    &&& item@ == old(self)@.new_item(
                        pn@,
                        name@,
                        Strategy::Buy,
                        ItemMaturity::Released,
                    )
                    &&& final(self)@ == old(self)@.with_item(item@)
                },
                Err(e) => {
                    &&& old(self)@.insert_refusal(pn@) == Some(e)
                    &&& final(self)@ == old(self)@
                },
            },
    {
        self.insert_item(pn, name, Strategy::Buy, ItemMaturity::Released)
    }

    /// All items, in the order of their identifiers.
    pub fn items(&self) -> (r: Result<Vec<Item>, Error>)
        requires
            self.wf(),
        ensures
            r matches Ok(items) && item_views(items@) == self@.items,
    {
        let mut items: Vec<Item> = Vec::new();
        let mut i: usize = 0;
        while i < self.items.len()
            invariant
                i <= self.items@.len(),
                item_views(items@) == self@.items.take(i as int),
            decreases self.items@.len() - i,
        {
            let ghost before = items@;
            items.push(self.items[i].clone());
            assert(self@.items[i as int] == self.items@[i as int]@);
            assert(item_views(items@) =~= item_views(before).push(self@.items[i as int]));
            assert(item_views(items@) =~= self@.items.take(i + 1));
            i += 1;
        }
        assert(self@.items.take(i as int) =~= self@.items);
        Ok(items)
    }

    /// The items whose part number or name the pattern matches, ordered by
    /// part number. In a pattern `%` stands for any run of characters and `_`
    /// for any one character.
    pub fn search(&self, pattern: &str) -> (r: Result<Vec<Item>, Error>)
        requires
            self.wf(),
        ensures
            r matches Ok(found) && self@.is_search_result(pattern@, item_views(found@)),
    {
        Ok(crate::search::search_in(self, pattern))
    }

    /// The number of items stored.
    pub fn item_count(&self) -> (n: usize)
        ensures
            n == self@.items.len(),
    {
        self.items.len()
    }

    /// The item with this identifier.
    pub fn item_by_id(&self, id: i64) -> (r: Result<Item, Error>)
        requires
            self.wf(),
        ensures
            match r {
                Ok(item) => self@.has_item(id as int) && item@ == self@.item(id as int),
                Err(e) => !self@.has_item(id as int) && e == Error::NotFound,
            },
    {
        if self.has_item(id) {
            Ok(self.items[self.slot(id)].clone())
        } else {
            Err(Error::NotFound)
        }
    }

    /// The first item, in the order of the identifiers, that carries this part
    /// number.
    pub fn get_item_by_pn(&self, pn: &str) -> (r: Result<Item, Error>)
        requires
            self.wf(),
        ensures
            match r {
                Ok(item) => self@.pn_known(pn@) && item@ == self@.items[self@.first_with_pn(pn@)],
                Err(e) => !self@.pn_known(pn@) && e == Error::NotFound,
            },
    {
        let mut i: usize = 0;
        while i < self.items.len()
            invariant
                i <= self.items@.len(),
                forall|k: int| 0 <= k < i ==> (#[trigger] self@.items[k]).pn != pn@,
            decreases self.items@.len() - i,
        {
            if crate::text::same_text(self.items[i].pn(), pn) {
                proof {
                    let tables = self@;
                    assert(tables.items[i as int].pn == pn@);
                    let first = tables.first_with_pn(pn@);
                    assert(first == i) by {
                        if first < i {
                            assert(tables.items[first].pn != pn@);
                        }
                    }
                }
                return Ok(self.items[i].clone());
            }
            i += 1;
        }
        Err(Error::NotFound)
    }

    /// Whether a link joins this parent to this child, and where.
    fn link_position(&self, parent_id: i64, child_id: i64) -> (found: Option<usize>)
        ensures
            match found {
                Some(i) => i < self.links@.len() && self.links@[i as int].parent_id == parent_id
                    && self.links@[i as int].child_id == child_id,
                None => !self@.has_link(parent_id as int, child_id as int),
            },
    {
        let mut i: usize = 0;
        while i < self.links.len()
            invariant
                i <= self.links@.len(),
                forall|k: int|
                    0 <= k < i ==> !((#[trigger] self.links@[k]).parent_id == parent_id
                        && self.links@[k].child_id == child_id),
            decreases self.links@.len() - i,
        {
            if self.links[i].parent_id == parent_id && self.links[i].child_id == child_id {
                return Some(i);
            }
            i += 1;
        }
        None
    }

    /// The position among the rows of the item with this identifier.
    fn slot(&self, id: i64) -> (index: usize)
        requires
            self@.has_item(id as int),
        ensures
            index == id - 1,
            index < self.items@.len(),
            self.items@[index as int]@ == self@.item(id as int),
    {
        let count = self.items.len();
        assert(id <= count);
        (id - 1) as usize
    }

    /// The number of links stored.
    pub fn link_count(&self) -> (n: usize)
        ensures
            n == self@.links.len(),
    {
        self.links.len()
    }

    /// The link at a position of the link table.
    pub fn link_at(&self, index: usize) -> (link: ChildLink)
        requires
            index < self@.links.len(),
        ensures
            link == self@.links[index as int],
    {
        self.links[index]
    }

    /// The stored item with this identifier.
    pub fn item(&self, id: i64) -> (item: Item)
        requires
            self@.has_item(id as int),
        ensures
            item@ == self@.item(id as int),
    {
        self.items[self.slot(id)].clone()
    }

    /// The maturity of a stored item.
    pub fn maturity_of(&self, id: i64) -> (maturity: ItemMaturity)
        requires
            self@.has_item(id as int),
        ensures
            maturity == self@.item(id as int).maturity,
    {
        self.items[self.slot(id)].maturity()
    }

    /// Whether an item with this identifier is stored.
    pub fn has_item(&self, id: i64) -> (has: bool)
        ensures
            has == self@.has_item(id as int),
    {
        id >= 1 && (id as u64) <= (self.items.len() as u64)
    }

    /// Links a parent to a child.
    pub fn add_link(&mut self, parent_id: i64, child_id: i64, quantity: usize) -> (r: Result<
        (),
        Error,
    >)
        requires
            old(self).wf(),
        ensures
            final(self).wf(),
            match r {
                Ok(()) => {
                    &&& old(self)@.link_refusal(parent_id as int, child_id as int) is None
                    &&& final(self)@ == old(self)@.with_link(
                        ChildLink { parent_id, child_id, quantity },
                    )
                },
                Err(e) => {
                    &&& old(self)@.link_refusal(parent_id as int, child_id as int) == Some(e)
                    &&& final(self)@ == old(self)@
                },
            },
    {
        if !self.has_item(parent_id) || !self.has_item(child_id) {
            return Err(Error::StorageError(StorageFault::UnknownItem));
        }
        match self.link_position(parent_id, child_id) {
            Some(i) => {
                assert(self@.links[i as int].parent_id == parent_id);
                return Err(Error::StorageError(StorageFault::DuplicateLink));
            },
            None => {},
        }
        self.links.push(ChildLink { parent_id, child_id, quantity });
        proof {
            let before = old(self)@;
            let after = self@;
            assert(after.items == before.items);
            assert(after.config == before.config);
            assert(after.links == before.links.push(ChildLink { parent_id, child_id, quantity }));
        }
        Ok(())
    }

    /// Removes the link that joins a parent to a child.
    pub fn remove_link(&mut self, parent_id: i64, child_id: i64) -> (r: Result<(), Error>)
        requires
            old(self).wf(),
        ensures
            final(self).wf(),
            match r {
                Ok(()) => {
                    &&& old(self)@.unlink_refusal(parent_id as int, child_id as int) is None
                    &&& final(self)@ == old(self)@.without_link(parent_id as int, child_id as int)
                },
                Err(e) => {
                    &&& old(self)@.unlink_refusal(parent_id as int, child_id as int) == Some(e)
                    &&& final(self)@ == old(self)@
                },
            },
    {
        match self.link_position(parent_id, child_id) {
            Some(i) => {
                proof {
                    let before = old(self)@;
                    let chosen = before.link_index(parent_id as int, child_id as int);
                    assert(before.links[i as int].parent_id == parent_id);
                    assert(chosen == i) by {
                        if chosen < i {
                            assert(!(before.links[chosen].parent_id == before.links[i as int].parent_id
                                && before.links[chosen].child_id
                                == before.links[i as int].child_id));
                        } else if chosen > i {
                            assert(!(before.links[i as int].parent_id == before.links[chosen].parent_id
                                && before.links[i as int].child_id
                                == before.links[chosen].child_id));
                        }
                    }
                }
                self.links.remove(i);
                proof {
                    let before = old(self)@;
                    let after = self@;
                    assert(after.items == before.items);
                    assert(after.config == before.config);
                    assert(after.links == before.links.remove(i as int));
                    assert forall|k: int| 0 <= k < after.links.len() implies after.links[k]
                        == before.links[if k < i { k } else { k + 1 }] by {}
                    assert forall|a: int, b: int| 0 <= a < b < after.links.len() implies !((
                    #[trigger] after.links[a]).parent_id == (#[trigger] after.links[b]).parent_id
                        && after.links[a].child_id == after.links[b].child_id) by {
                        let a0 = if a < i { a } else { a + 1 };
                        let b0 = if b < i { b } else { b + 1 };
                        assert(!(before.links[a0].parent_id == before.links[b0].parent_id
                            && before.links[a0].child_id == before.links[b0].child_id));
                    }
                    assert forall|k: int| 0 <= k < after.links.len() implies after.has_item(
                        (#[trigger] after.links[k]).parent_id as int,
                    ) && after.has_item(after.links[k].child_id as int) by {
                        let k0 = if k < i { k } else { k + 1 };
                        assert(before.has_item(before.links[k0].parent_id as int));
                    }
                }
                Ok(())
            },
            None => Err(Error::StorageError(StorageFault::MissingLink)),
        }
    }

    /// The direct children of an item with their quantities, in the order in
    /// which they were linked.
    pub fn children_of(&self, parent_id: i64) -> (r: Result<Vec<(Item, usize)>, Error>)
        requires
            self.wf(),
        ensures
            r matches Ok(kids) && child_rows(kids@) == self@.children_of(parent_id as int),
    {
        let mut kids: Vec<(Item, usize)> = Vec::new();
        let mut i: usize = 0;
        assert(self.links@.take(0).filter(|l: ChildLink| l.parent_id == parent_id as int).len() == 0) by {
            self.links@.take(0).lemma_filter_len(|l: ChildLink| l.parent_id == parent_id as int);
        }
        assert(child_rows(kids@) =~= Tables::children_among(
            self@.items,
            self.links@.take(0),
            parent_id as int,
        ));
        while i < self.links.len()
            invariant
                self.wf(),
                i <= self.links@.len(),
                child_rows(kids@) == Tables::children_among(
                    self@.items,
                    self.links@.take(i as int),
                    parent_id as int,
                ),
            decreases self.links@.len() - i,
        {
            let link = self.links[i];
            proof {
                assert(self.links@.take(i + 1) =~= self.links@.take(i as int).push(link));
                lemma_children_among_push(
                    self@.items,
                    self.links@.take(i as int),
                    link,
                    parent_id as int,
                );
                assert(self@.has_item(self@.links[i as int].child_id as int));
            }
            if link.parent_id == parent_id {
                let child = self.items[self.slot(link.child_id)].clone();
                let ghost before = kids@;
                kids.push((child, link.quantity));
                assert(child_rows(kids@) =~= child_rows(before).push(
                    (self@.items[link.child_id - 1], link.quantity as nat),
                ));
            }
            i += 1;
        }
        assert(self.links@.take(i as int) =~= self.links@);
        Ok(kids)
    }

    /// The direct parents of an item, in the order in which they were linked.
    pub fn parents_of(&self, child_id: i64) -> (r: Result<Vec<Item>, Error>)
        requires
            self.wf(),
        ensures
            r matches Ok(parents) && item_views(parents@) == self@.parents_of(child_id as int),
    {
        let mut parents: Vec<Item> = Vec::new();
        let mut i: usize = 0;
        assert(self.links@.take(0).filter(|l: ChildLink| l.child_id == child_id as int).len() == 0) by {
            self.links@.take(0).lemma_filter_len(|l: ChildLink| l.child_id == child_id as int);
        }
        assert(item_views(parents@) =~= Tables::parents_among(
            self@.items,
            self.links@.take(0),
            child_id as int,
        ));
        while i < self.links.len()
            invariant
                self.wf(),
                i <= self.links@.len(),
                item_views(parents@) == Tables::parents_among(
                    self@.items,
                    self.links@.take(i as int),
                    child_id as int,
                ),
            decreases self.links@.len() - i,
        {
            let link = self.links[i];
            proof {
                assert(self.links@.take(i + 1) =~= self.links@.take(i as int).push(link));
                lemma_parents_among_push(
                    self@.items,
                    self.links@.take(i as int),
                    link,
                    child_id as int,
                );
                assert(self@.has_item(self@.links[i as int].parent_id as int));
            }
            if link.child_id == child_id {
                let parent = self.items[self.slot(link.parent_id)].clone();
                let ghost before = parents@;
                parents.push(parent);
                assert(item_views(parents@) =~= item_views(before).push(
                    self@.items[link.parent_id - 1],
                ));
            }
            i += 1;
        }
        assert(self.links@.take(i as int) =~= self.links@);
        Ok(parents)
    }

    /// Writes the maturity of an item, whatever it was before.
    pub fn set_maturity(&mut self, id: i64, maturity: ItemMaturity) -> (r: Result<Item, Error>)
        requires
            old(self).wf(),
        ensures
            final(self).wf(),
            match r {
                Ok(item) => {
                    &&& old(self)@.has_item(id as int)
                    &&& final(self)@ == old(self)@.with_maturity(id as int, maturity)
                    &&& item@ == final(self)@.item(id as int)
                },
                Err(e) => {
                    &&& !old(self)@.has_item(id as int)
                    &&& final(self)@ == old(self)@
                    &&& e == Error::NotFound
                },
            },
    {
        if !self.has_item(id) {
            return Err(Error::NotFound);
        }
        let index = self.slot(id);
        let current = &self.items[index];
        let updated = Item::new(
            current.id(),
            current.pn(),
            current.name(),
            current.version(),
            maturity,
            current.strategy(),
        );
        let item = updated.clone();
        self.items.set(index, updated);
        proof {
            let before = old(self)@;
            let after = self@;
            assert(after.items =~= before.items.update(
                id - 1,
                ItemView { maturity, ..before.item(id as int) },
            ));
            assert(after.links == before.links);
            assert(after.config == before.config);
        }
        Ok(item)
    }
}

impl Database {
    /// Whether the tables meet their schema constraints.
    pub closed spec fn wf(&self) -> bool {
        &&& self@.valid()
        &&& distinct_keys(self.config@)
    }

    /// Well-formed tables meet the schema constraints.
    pub proof fn lemma_wf_valid(&self)
        requires
            self.wf(),
        ensures
            self@.valid(),
    {
    }

    /// Empty tables.
    pub fn new() -> (db: Database)
        ensures
            db.wf(),
            db@ == Tables::empty(),
    {
        let db = Database { items: Vec::new(), links: Vec::new(), config: Vec::new() };
        assert(db@.items =~= Seq::empty());
        db
    }

    /// The position of a configuration key among the rows.
    fn config_index(&self, key: &str) -> (found: Option<usize>)
        ensures
            match found {
                Some(i) => i < self.config@.len() && self.config@[i as int].key@ == key@,
                None => forall|i: int|
                    0 <= i < self.config@.len() ==> (#[trigger] self.config@[i]).key@ != key@,
            },
    {
        let mut i: usize = 0;
        while i < self.config.len()
            invariant
                i <= self.config@.len(),
                forall|k: int| 0 <= k < i ==> (#[trigger] self.config@[k]).key@ != key@,
            decreases self.config@.len() - i,
        {
            if crate::text::same_text(self.config[i].key.as_str(), key) {
                return Some(i);
            }
            i += 1;
        }
        None
    }

    /// Reads a configuration value: the empty string where the key is not set.
    pub fn get_config(&self, key: &str) -> (r: Result<String, Error>)
        requires
            self.wf(),
        ensures
            r matches Ok(value) && value@ == self@.config_value(key@),
    {
        proof {
            lemma_config_map_dom(self.config@, key@);
        }
        match self.config_index(key) {
            Some(i) => {
                proof {
                    lemma_config_map_value(self.config@, i as int);
                }
                Ok(self.config[i].value.clone())
            },
            None => Ok(String::new()),
        }
    }

    /// Writes a configuration value, replacing what the key held before.
    pub fn set_config(&mut self, key: &str, value: &str) -> (r: Result<(), Error>)
        requires
            old(self).wf(),
        ensures
            final(self).wf(),
            r is Ok,
            final(self)@ == old(self)@.with_config(key@, value@),
    {
        let entry = ConfigEntry { key: key.to_owned(), value: value.to_owned() };
        let ghost before = self.config@;
        match self.config_index(key) {
            Some(i) => {
                self.config.set(i, entry);
            },
            None => {
                self.config.push(entry);
                assert(self.config@.drop_last() == before);
            },
        }
        proof {
            let after = self.config@;
            assert(distinct_keys(after));
            assert forall|k: Seq<char>|
                config_map(after).dom().contains(k) <==> config_map(before).insert(
                    key@,
                    value@,
                ).dom().contains(k) by {
                lemma_config_map_dom(after, k);
                lemma_config_map_dom(before, k);
                if exists|j: int| 0 <= j < after.len() && (#[trigger] after[j]).key@ == k {
                    let j = choose|j: int| 0 <= j < after.len() && (#[trigger] after[j]).key@ == k;
                    if k != key@ {
                        assert(before[j].key@ == k);
                    }
                }
                if exists|j: int| 0 <= j < before.len() && (#[trigger] before[j]).key@ == k {
                    let j = choose|j: int|
                        0 <= j < before.len() && (#[trigger] before[j]).key@ == k;
                    assert(after[j].key@ == k);
                }
                if k == key@ {
                    let j = if after.len() == before.len() {
                        choose|j: int| 0 <= j < after.len() && after[j].key@ == key@
                    } else {
                        before.len() as int
                    };
                    assert(after[j].key@ == k);
                }
            }
            assert forall|k: Seq<char>| config_map(after).dom().contains(k) implies config_map(
                after,
            )[k] == config_map(before).insert(key@, value@)[k] by {
                lemma_config_map_dom(after, k);
                let j = choose|j: int| 0 <= j < after.len() && (#[trigger] after[j]).key@ == k;
                lemma_config_map_value(after, j);
                if k != key@ {
                    assert(before[j].key@ == k);
                    lemma_config_map_value(before, j);
                }
            }
            assert(config_map(after) =~= config_map(before).insert(key@, value@));
            assert(self@.items == old(self)@.items);
            assert(self@.links == old(self)@.links);
            assert(self@.valid());
        }
        Ok(())
    }
}

/// Whether rows can be stored as they are: as tables they meet the schema
/// constraints, and no configuration key comes twice.
pub open spec fn rows_consistent(
    items: Seq<Item>,
    links: Seq<ChildLink>,
    config: Seq<(String, String)>,
) -> bool {
    &&& (Tables { items: item_views(items), links, config: Map::empty() }).valid()
    &&& forall|i: int, j: int|
        0 <= i < j < config.len() ==> (#[trigger] config[i]).0@ != (#[trigger] config[j]).0@
}

/// Whether a mapping holds exactly the given pairs of key and value.
pub open spec fn holds_pairs(m: Map<Seq<char>, Seq<char>>, pairs: Seq<(String, String)>) -> bool {
    &&& forall|key: Seq<char>|
        m.dom().contains(key) <==> exists|i: int|
            0 <= i < pairs.len() && (#[trigger] pairs[i]).0@ == key
    &&& forall|i: int|
        0 <= i < pairs.len() ==> m.dom().contains((#[trigger] pairs[i]).0@) && m[pairs[i].0@]
            == pairs[i].1@
}

fn items_consistent(items: &Vec<Item>) -> (yes: bool)
    ensures
        yes == {
            let views = item_views(items@);
            &&& views.len() < i64::MAX
            &&& forall|i: int| 0 <= i < views.len() ==> (#[trigger] views[i]).id == i + 1
            &&& forall|i: int| 0 <= i < views.len() ==> (#[trigger] views[i]).version >= 1
            &&& forall|i: int, j: int|
                0 <= i < j < views.len() ==> !((#[trigger] views[i]).pn == (#[trigger] views[j]).pn
                    && views[i].version == views[j].version)
        },
{
    let ghost views = item_views(items@);
    let count = items.len();
    if (count as u64) >= 0x7fff_ffff_ffff_ffff_u64 {
        return false;
    }
    let mut j: usize = 0;
    while j < count
        invariant
            j <= count,
            count == items@.len(),
            count < i64::MAX,
            views == item_views(items@),
            forall|i: int| 0 <= i < j ==> (#[trigger] views[i]).id == i + 1,
            forall|i: int| 0 <= i < j ==> (#[trigger] views[i]).version >= 1,
            forall|a: int, b: int|
                0 <= a < b < j ==> !((#[trigger] views[a]).pn == (#[trigger] views[b]).pn
                    && views[a].version == views[b].version),
        decreases count - j,
    {
        let item = &items[j];
        assert(views[j as int] == item@);
        if item.id() != (j as u64 + 1) as i64 || item.version() < 1 {
            return false;
        }
        let mut i: usize = 0;
        while i < j
            invariant
                i <= j,
                j < count,
                count == items@.len(),
                views == item_views(items@),
                item@ == views[j as int],
                forall|a: int|
                    0 <= a < i ==> !((#[trigger] views[a]).pn == views[j as int].pn
                        && views[a].version == views[j as int].version),
            decreases j - i,
        {
            let other = &items[i];
            assert(views[i as int] == other@);
            if other.version() == item.version() && crate::text::same_text(
                other.pn(),
                item.pn(),
            ) {
                return false;
            }
            i += 1;
        }
        j += 1;
    }
    true
}

fn links_consistent(links: &Vec<ChildLink>, count: usize) -> (yes: bool)
    ensures
        yes == {
            &&& forall|i: int|
                0 <= i < links@.len() ==> 1 <= (#[trigger] links@[i]).parent_id <= count && 1
                    <= links@[i].child_id <= count
            &&& forall|i: int, j: int|
                0 <= i < j < links@.len() ==> !((#[trigger] links@[i]).parent_id == (
                #[trigger] links@[j]).parent_id && links@[i].child_id == links@[j].child_id)
        },
{
    let mut j: usize = 0;
    while j < links.len()
        invariant
            j <= links@.len(),
            forall|i: int|
                0 <= i < j ==> 1 <= (#[trigger] links@[i]).parent_id <= count && 1
                    <= links@[i].child_id <= count,
            forall|a: int, b: int|
                0 <= a < b < j ==> !((#[trigger] links@[a]).parent_id == (
                #[trigger] links@[b]).parent_id && links@[a].child_id == links@[b].child_id),
        decreases links@.len() - j,
    {
        let link = links[j];
        if link.parent_id < 1 || link.child_id < 1 || (link.parent_id as u64) > (count as u64) || (
        link.child_id as u64) > (count as u64) {
            return false;
        }
        let mut i: usize = 0;
        while i < j
            invariant
                i <= j,
                j < links@.len(),
                link == links@[j as int],
                forall|a: int|
                    0 <= a < i ==> !((#[trigger] links@[a]).parent_id == link.parent_id
                        && links@[a].child_id == link.child_id),
            decreases j - i,
        {
            if links[i].parent_id == link.parent_id && links[i].child_id == link.child_id {
                return false;
            }
            i += 1;
        }
        j += 1;
    }
    true
}

fn keys_consistent(config: &Vec<(String, String)>) -> (yes: bool)
    ensures
        yes == forall|i: int, j: int|
            0 <= i < j < config@.len() ==> (#[trigger] config@[i]).0@ != (#[trigger] config@[j]).0@,
{
    let mut j: usize = 0;
    while j < config.len()
        invariant
            j <= config@.len(),
            forall|a: int, b: int|
                0 <= a < b < j ==> (#[trigger] config@[a]).0@ != (#[trigger] config@[b]).0@,
        decreases config@.len() - j,
    {
        let mut i: usize = 0;
        while i < j
            invariant
                i <= j,
                j < config@.len(),
                forall|a: int| 0 <= a < i ==> (#[trigger] config@[a]).0@ != config@[j as int].0@,
            decreases j - i,
        {
            if crate::text::same_text(config[i].0.as_str(), config[j].0.as_str()) {
                return false;
            }
            i += 1;
        }
        j += 1;
    }
    true
}

impl Database {
    /// The tables that hold the given rows, where the rows meet the schema
    /// constraints.
    pub fn from_rows(items: Vec<Item>, links: Vec<ChildLink>, config: Vec<(String, String)>) -> (r:
        Result<Database, Error>)
        ensures
            match r {
                Ok(db) => {
                    &&& rows_consistent(items@, links@, config@)
                    &&& db.wf()
                    &&& db@.items == item_views(items@)
                    &&& db@.links == links@
                    &&& holds_pairs(db@.config, config@)
                },
                Err(e) => !rows_consistent(items@, links@, config@) && e == Error::StorageError(
                    StorageFault::Inconsistent,
                ),
            },
    {
        let ghost views = item_views(items@);
        let ghost tables = Tables { items: views, links: links@, config: Map::empty() };
        if !items_consistent(&items) {
            return Err(Error::StorageError(StorageFault::Inconsistent));
        }
        if !links_consistent(&links, items.len()) {
            proof {
                if tables.valid() {
                    assert forall|i: int| 0 <= i < links@.len() implies 1 <= (
                    #[trigger] links@[i]).parent_id <= items@.len() && 1 <= links@[i].child_id
                        <= items@.len() by {
                        assert(tables.has_item(tables.links[i].parent_id as int));
                    }
                    assert forall|i: int, j: int| 0 <= i < j < links@.len() implies !((
                    #[trigger] links@[i]).parent_id == (#[trigger] links@[j]).parent_id
                        && links@[i].child_id == links@[j].child_id) by {
                        assert(!(tables.links[i].parent_id == tables.links[j].parent_id
                            && tables.links[i].child_id == tables.links[j].child_id));
                    }
                }
            }
            return Err(Error::StorageError(StorageFault::Inconsistent));
        }
        if !keys_consistent(&config) {
            return Err(Error::StorageError(StorageFault::Inconsistent));
        }
        let mut entries: Vec<ConfigEntry> = Vec::new();
        let mut k: usize = 0;
        while k < config.len()
            invariant
                k <= config@.len(),
                entries@.len() == k,
                forall|i: int|
                    0 <= i < k ==> (#[trigger] entries@[i]).key@ == config@[i].0@
                        && entries@[i].value@ == config@[i].1@,
            decreases config@.len() - k,
        {
            entries.push(ConfigEntry { key: config[k].0.clone(), value: config[k].1.clone() });
            k += 1;
        }
        let db = Database { items, links, config: entries };
        proof {
            assert(db@.items == views);
            assert(db@.links == links@);
            assert(tables.valid()) by {
                assert forall|i: int| 0 <= i < tables.links.len() implies tables.has_item(
                    (#[trigger] tables.links[i]).parent_id as int,
                ) && tables.has_item(tables.links[i].child_id as int) by {
                    assert(1 <= links@[i].parent_id <= items@.len());
                }
            }
            assert(distinct_keys(entries@)) by {
                assert forall|i: int, j: int| 0 <= i < j < entries@.len() implies (
                #[trigger] entries@[i]).key@ != (#[trigger] entries@[j]).key@ by {
                    assert(config@[i].0@ != config@[j].0@);
                }
            }
            assert(db@.valid());
            assert forall|key: Seq<char>|
                db@.config.dom().contains(key) <==> exists|i: int|
                    0 <= i < config@.len() && (#[trigger] config@[i]).0@ == key by {
                lemma_config_map_dom(entries@, key);
                if exists|i: int| 0 <= i < entries@.len() && (#[trigger] entries@[i]).key@ == key {
                    let i = choose|i: int|
                        0 <= i < entries@.len() && (#[trigger] entries@[i]).key@ == key;
                    assert(config@[i].0@ == key);
                }
                if exists|i: int| 0 <= i < config@.len() && (#[trigger] config@[i]).0@ == key {
                    let i = choose|i: int|
                        0 <= i < config@.len() && (#[trigger] config@[i]).0@ == key;
                    assert(entries@[i].key@ == key);
                }
            }
            assert forall|i: int| 0 <= i < config@.len() implies db@.config.dom().contains(
                (#[trigger] config@[i]).0@,
            ) && db@.config[config@[i].0@] == config@[i].1@ by {
                lemma_config_map_value(entries@, i);
                assert(entries@[i].key@ == config@[i].0@);
            }
        }
        Ok(db)
    }

    /// All links, in the order in which they were added.
    pub fn links(&self) -> (links: Vec<ChildLink>)
        ensures
            links@ == self@.links,
    {
        self.links.clone()
    }

    /// All configuration entries, each key once.
    pub fn config_entries(&self) -> (pairs: Vec<(String, String)>)
        requires
            self.wf(),
        ensures
            holds_pairs(self@.config, pairs@),
            forall|i: int, j: int|
                0 <= i < j < pairs@.len() ==> (#[trigger] pairs@[i]).0@ != (#[trigger] pairs@[j]).0@,
    {
        let mut pairs: Vec<(String, String)> = Vec::new();
        let mut k: usize = 0;
        while k < self.config.len()
            invariant
                k <= self.config@.len(),
                pairs@.len() == k,
                forall|i: int|
                    0 <= i < k ==> (#[trigger] pairs@[i]).0@ == self.config@[i].key@ && pairs@[i].1@
                        == self.config@[i].value@,
            decreases self.config@.len() - k,
        {
            pairs.push((self.config[k].key.clone(), self.config[k].value.clone()));
            k += 1;
        }
        proof {
            let entries = self.config@;
            assert forall|key: Seq<char>|
                self@.config.dom().contains(key) <==> exists|i: int|
                    0 <= i < pairs@.len() && (#[trigger] pairs@[i]).0@ == key by {
                lemma_config_map_dom(entries, key);
                if exists|i: int| 0 <= i < entries.len() && (#[trigger] entries[i]).key@ == key {
                    let i = choose|i: int|
                        0 <= i < entries.len() && (#[trigger] entries[i]).key@ == key;
                    assert(pairs@[i].0@ == key);
                }
                if exists|i: int| 0 <= i < pairs@.len() && (#[trigger] pairs@[i]).0@ == key {
                    let i = choose|i: int| 0 <= i < pairs@.len() && (#[trigger] pairs@[i]).0@ == key;
                    assert(entries[i].key@ == key);
                }
            }
            assert forall|i: int| 0 <= i < pairs@.len() implies self@.config.dom().contains(
                (#[trigger] pairs@[i]).0@,
            ) && self@.config[pairs@[i].0@] == pairs@[i].1@ by {
                lemma_config_map_value(entries, i);
            }
            assert forall|i: int, j: int| 0 <= i < j < pairs@.len() implies (#[trigger] pairs@[i]).0@
                != (#[trigger] pairs@[j]).0@ by {
                assert(entries[i].key@ != entries[j].key@);
            }
        }
        pairs
    }
}

} // verus!
