//! The domain store: the catalog behind the business rules. It is the one
//! place where the legality of a transition or of a change to a bill of
//! materials is decided.

use crate::children::Children;
use crate::database::{item_views, ChildLink, Database, Item, ItemMaturity, Strategy, Tables};
use crate::error::Error;
use crate::explosion::explode;
use crate::report::Report;
use crate::text::{counter_of, counter_value, zero_padded, zero_padded_text};
use crate::walk::{all_below_released, spread_obsolescence};
use vstd::prelude::*;

verus! {

/// The configuration key under which the counter of part numbers is stored.
pub open spec fn pn_counter_key() -> Seq<char> {
    "simple_pn_provider"@
}

impl Tables {
    /// The counter of part numbers: the number of the last one allocated.
    pub open spec fn pn_counter(self) -> nat {
        counter_value(self.config_value(pn_counter_key()))
    }

    /// Whether the counter can count one further.
    pub open spec fn pn_counter_fits(self) -> bool {
        self.pn_counter() < usize::MAX
    }

    /// The part number that is allocated next: the counter plus one, in
    /// decimal, with zeros in front up to eight digits.
    pub open spec fn next_pn(self) -> Seq<char> {
        zero_padded(self.pn_counter() + 1, 8)
    }

    /// The tables once the next part number is allocated.
    pub open spec fn with_pn_allocated(self) -> Tables {
        self.with_config(pn_counter_key(), self.next_pn())
    }
}

/// Allocates the next part number: one more than the stored counter, which
/// it writes back.
pub fn simple_8digits_pn_provider(db: &mut Database) -> (r: Result<String, Error>)
    requires
        old(db).wf(),
        old(db)@.pn_counter_fits(),
    ensures
        final(db).wf(),
        r matches Ok(pn) && pn@ == old(db)@.next_pn() && final(db)@ == old(
            db,
        )@.with_pn_allocated(),
{
    let key = "simple_pn_provider";
    let stored = match db.get_config(key) {
        Ok(stored) => stored,
        Err(e) => {
            return Err(e);
        },
    };
    let last_pn = counter_of(stored.as_str());
    let new_pn = zero_padded_text(last_pn as u64 + 1, 8);
    match db.set_config(key, new_pn.as_str()) {
        Ok(()) => Ok(new_pn),
        Err(e) => Err(e),
    }
}

/// The domain store.
pub struct Store {
    db: Database,
}

impl View for Store {
    type V = Tables;

    closed spec fn view(&self) -> Tables {
        self.db@
    }
}

impl Store {
    /// Whether the tables behind the store meet their schema constraints,
    /// and each part number is carried by one procured item at most.
    pub closed spec fn wf(&self) -> bool {
        self.db.wf() && self.db@.buy_pns_unique()
    }

    /// The tables behind a well-formed store meet the schema constraints, and
    /// each part number is carried by one procured item at most.
    pub proof fn lemma_wf_valid(&self)
        requires
            self.wf(),
        ensures
            self@.valid(),
            self@.buy_pns_unique(),
    {
        self.db.lemma_wf_valid();
    }

    /// A store on the given tables. The tables are refused where two procured
    /// items carry one part number.
    pub fn open(db: Database) -> (r: Result<Store, Error>)
        requires
            db.wf(),
        ensures
            match r {
                Ok(store) => db@.buy_pns_unique() && store.wf() && store@ == db@,
                Err(e) => !db@.buy_pns_unique() && e == Error::DuplicatePartNumber,
            },
    {
        if db.buy_pns_unique() {
            Ok(Store { db })
        } else {
            Err(Error::DuplicatePartNumber)
        }
    }

    /// The tables behind the store.
    pub fn database(&self) -> (db: &Database)
        ensures
            db@ == self@,
            self.wf() ==> db.wf(),
    {
        &self.db
    }

    /// Reads a configuration value: the empty string where the key is not set.
    pub fn read_config(&self, key: &str) -> (r: Result<String, Error>)
        requires
            self.wf(),
        ensures
            r matches Ok(value) && value@ == self@.config_value(key@),
    {
        self.db.get_config(key)
    }

    /// Writes a configuration value, replacing what the key held before.
    pub fn write_config(&mut self, key: &str, value: &str) -> (r: Result<(), Error>)
        requires
            old(self).wf(),
        ensures
            final(self).wf(),
            r is Ok,
            final(self)@ == old(self)@.with_config(key@, value@),
    {
        self.db.set_config(key, value)
    }

    /// Whether the counter of part numbers can count one further, as
    /// `make_item` needs it to.
    pub fn can_allocate_pn(&self) -> (fits: bool)
        requires
            self.wf(),
        ensures
            fits == self@.pn_counter_fits(),
    {
        match self.db.get_config("simple_pn_provider") {
            Ok(stored) => counter_of(stored.as_str()) < usize::MAX,
            Err(_) => false,
        }
    }

    /// Creates an item that is designed in house, under the next part number.
    /// The part number stays allocated where the tables refuse the item.
    pub fn make_item(&mut self, name: &str) -> (r: Result<Item, Error>)
        requires
            old(self).wf(),
            old(self)@.pn_counter_fits(),
        ensures
            final(self).wf(),
            ({
                let pn = old(self)@.next_pn();
                let counted = old(self)@.with_pn_allocated();
                match r {
                    Ok(item) => {
                        &&& counted.insert_refusal(pn) is None
                        &&& item@ == counted.new_item(
                            pn,
                            name@,
                            Strategy::Make,
                            ItemMaturity::InProgress,
                        )
                        &&& final(self)@ == counted.with_item(item@)
                    },
                    Err(e) => {
                        &&& counted.insert_refusal(pn) == Some(e)
                        &&& final(self)@ == counted
                    },
                }
            }),
    {
        let pn = match simple_8digits_pn_provider(&mut self.db) {
            Ok(pn) => pn,
            Err(e) => {
                return Err(e);
            },
        };
        self.db.new_make_item(pn.as_str(), name)
    }

    /// Creates an item that is procured. It exists already, so it is released
    /// from the start.
    pub fn buy_item(&mut self, pn: &str, name: &str) -> (r: Result<Item, Error>)
        requires
            old(self).wf(),
        ensures
            final(self).wf(),
            match r {
                Ok(item) => {
                    &&& old(self)@.buy_item_refusal(pn@) is None
                    &&& item@ == old(self)@.new_item(
                        pn@,
                        name@,
                        Strategy::Buy,
                        ItemMaturity::Released,
                    )
                    &&& final(self)@ == old(self)@.with_item(item@)
                },
                Err(e) => {
                    &&& old(self)@.buy_item_refusal(pn@) == Some(e)
                    &&& final(self)@ == old(self)@
                },
            },
    {
        if self.db.has_buy_item(pn) {
            return Err(Error::DuplicatePartNumber);
        }
        self.db.new_buy_item(pn, name)
    }

    /// All items, in the order of their identifiers.
    pub fn items(&self) -> (r: Result<Vec<Item>, Error>)
        requires
            self.wf(),
        ensures
            r matches Ok(items) && item_views(items@) == self@.items,
    {
        self.db.items()
    }

    /// The item with this identifier.
    pub fn item(&self, id: i64) -> (r: Result<Item, Error>)
        requires
            self.wf(),
        ensures
            match r {
                Ok(item) => self@.has_item(id as int) && item@ == self@.item(id as int),
                Err(e) => !self@.has_item(id as int) && e == Error::NotFound,
            },
    {
        self.db.item_by_id(id)
    }

    /// Adds a child to the bill of materials of an item that is designed in
    /// house and in progress.
    pub fn add_child(&mut self, parent_id: i64, child_id: i64, quantity: usize) -> (r: Result<
        (),
        Error,
    >)
        requires
            old(self).wf(),
        ensures
            final(self).wf(),
            match r {
                Ok(()) => {
                    &&& old(self)@.add_child_refusal(parent_id as int, child_id as int) is None
                    &&& final(self)@ == old(self)@.with_link(
                        ChildLink { parent_id, child_id, quantity },
                    )
                },
                Err(e) => {
                    &&& old(self)@.add_child_refusal(parent_id as int, child_id as int) == Some(e)
                    &&& final(self)@ == old(self)@
                },
            },
    {
        let parent = match self.db.item_by_id(parent_id) {
            Ok(parent) => parent,
            Err(e) => {
                return Err(e);
            },
        };
        if parent.strategy() != Strategy::Make || parent.maturity() != ItemMaturity::InProgress {
            Err(Error::CantAddChild)
        } else {
            self.db.add_link(parent_id, child_id, quantity)
        }
    }

    /// Removes a child from the bill of materials of an item that is designed
    /// in house and in progress.
    pub fn remove_child(&mut self, parent_id: i64, child_id: i64) -> (r: Result<(), Error>)
        requires
            old(self).wf(),
        ensures
            final(self).wf(),
            match r {
                Ok(()) => {
                    &&& old(self)@.remove_child_refusal(parent_id as int, child_id as int) is None
                    &&& final(self)@ == old(self)@.without_link(parent_id as int, child_id as int)
                },
                Err(e) => {
                    &&& old(self)@.remove_child_refusal(parent_id as int, child_id as int) == Some(
                        e,
                    )
                    &&& final(self)@ == old(self)@
                },
            },
    {
        let parent = match self.db.item_by_id(parent_id) {
            Ok(parent) => parent,
            Err(e) => {
                return Err(e);
            },
        };
        if parent.strategy() != Strategy::Make || parent.maturity() != ItemMaturity::InProgress {
            Err(Error::CantRemoveChild)
        } else {
            self.db.remove_link(parent_id, child_id)
        }
    }

    /// The direct children of an item with their quantities, in the order in
    /// which they were linked.
    pub fn children(&self, id: i64) -> (r: Result<Children, Error>)
        requires
            self.wf(),
        ensures
            r matches Ok(children) && children@ == self@.children_of(id as int),
    {
        match self.db.children_of(id) {
            Ok(rows) => Ok(Children::new(rows)),
            Err(e) => Err(e),
        }
    }

    /// The items that use the given item directly, in the order in which they
    /// were linked.
    pub fn where_used(&self, id: i64) -> (r: Result<Vec<Item>, Error>)
        requires
            self.wf(),
        ensures
            r matches Ok(parents) && item_views(parents@) == self@.parents_of(id as int),
    {
        self.db.parents_of(id)
    }

    /// The items whose part number or name the pattern matches, ordered by
    /// part number. In a pattern `%` stands for any run of characters and `_`
    /// for any one character.
    pub fn search_items(&self, pattern: &str) -> (r: Result<Vec<Item>, Error>)
        requires
            self.wf(),
        ensures
            r matches Ok(found) && self@.is_search_result(pattern@, item_views(found@)),
    {
        self.db.search(pattern)
    }

    /// Everything that an item requires, level below level, flattened: each
    /// item below it once, with its accumulated quantity. `None` where a way
    /// down from the item has more links than there are items, as it has where
    /// the bill of materials holds a cycle, or where a quantity does not fit
    /// the machine word.
    pub fn checked_report(&self, id: i64) -> (r: Option<Report>)
        requires
            self.wf(),
        ensures
            match r {
                Some(report) => {
                    &&& self@.explosion_fits(id as int)
                    &&& report.wf()
                    &&& report@ == self@.explosion(id as int)
                },
                None => !self@.explosion_fits(id as int),
            },
    {
        explode(&self.db, id, self.db.item_count())
    }

    /// Everything that an item requires, level below level, flattened: each
    /// item below it once, with its accumulated quantity.
    pub fn report(&self, id: i64) -> (r: Result<Report, Error>)
        requires
            self.wf(),
            self@.explosion_fits(id as int),
        ensures
            r matches Ok(report) && report.wf() && report@ == self@.explosion(id as int),
    {
        match self.checked_report(id) {
            Some(report) => Ok(report),
            None => vstd::pervasive::unreached(),
        }
    }

    /// Whether every item below this one is released.
    fn children_can_release(&self, id: i64) -> (r: Result<bool, Error>)
        requires
            self.wf(),
        ensures
            r matches Ok(ok) && ok == self@.descendants_released(id as int),
    {
        Ok(all_below_released(&self.db, id))
    }

    /// Releases an item that is designed in house and in progress, once
    /// everything below it is released.
    pub fn release(&mut self, id: i64) -> (r: Result<Item, Error>)
        requires
            old(self).wf(),
        ensures
            final(self).wf(),
            match r {
                Ok(item) => {
                    &&& old(self)@.release_refusal(id as int) is None
                    &&& final(self)@ == old(self)@.with_maturity(
                        id as int,
                        ItemMaturity::Released,
                    )
                    &&& item@ == final(self)@.item(id as int)
                },
                Err(e) => {
                    &&& old(self)@.release_refusal(id as int) == Some(e)
                    &&& final(self)@ == old(self)@
                },
            },
    {
        let item = match self.db.item_by_id(id) {
            Ok(item) => item,
            Err(e) => {
                return Err(e);
            },
        };
        if item.strategy() != Strategy::Make || item.maturity() != ItemMaturity::InProgress {
            return Err(Error::CantReleaseItem);
        }
        let clear = match self.children_can_release(id) {
            Ok(clear) => clear,
            Err(e) => {
                return Err(e);
            },
        };
        if clear {
            self.db.set_maturity(id, ItemMaturity::Released)
        } else {
            Err(Error::CantReleaseItem)
        }
    }

    /// Marks the item obsolete if it is settled, and with it every settled
    /// item that uses an item so marked.
    fn make_where_used_obsolete(&mut self, id: i64) -> (r: Result<(), Error>)
        requires
            old(self).wf(),
            old(self)@.has_item(id as int),
        ensures
            final(self).wf(),
            r is Ok,
            final(self)@ == old(self)@.after_cascade(id as int),
    {
        spread_obsolescence(&mut self.db, id);
        Ok(())
    }

    /// Makes a procured item obsolete, and with it the assemblies that use it
    /// and are no longer in progress.
    pub fn make_obsolete(&mut self, id: i64) -> (r: Result<Item, Error>)
        requires
            old(self).wf(),
        ensures
            final(self).wf(),
            match r {
                Ok(item) => {
                    &&& old(self)@.make_obsolete_refusal(id as int) is None
                    &&& final(self)@ == old(self)@.after_cascade(id as int)
                    &&& item@ == final(self)@.item(id as int)
                },
                Err(e) => {
                    &&& old(self)@.make_obsolete_refusal(id as int) == Some(e)
                    &&& final(self)@ == old(self)@
                },
            },
    {
        let item = match self.db.item_by_id(id) {
            Ok(item) => item,
            Err(e) => {
                return Err(e);
            },
        };
        if item.strategy() != Strategy::Buy {
            return Err(Error::CantMakeObsolete);
        }
        match self.make_where_used_obsolete(id) {
            Ok(()) => {},
            Err(e) => {
                return Err(e);
            },
        }
        self.db.item_by_id(id)
    }
}

} // verus!
