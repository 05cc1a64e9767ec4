//! Items: the parts and assemblies of the catalog, with their lifecycle and
//! their procurement strategy.

use crate::error::{Error, StorageFault};
use vstd::prelude::*;

verus! {

/// Lifecycle stage of an item.
#[derive(Clone, Copy, Debug, PartialEq, Eq, Structural)]
pub enum ItemMaturity {
    InProgress,
    Released,
    Obsolete,
}

impl ItemMaturity {
    /// The stable integer under which a maturity is persisted.
    pub open spec fn spec_code(self) -> int {
        match self {
            ItemMaturity::InProgress => 0,
            ItemMaturity::Released => 1,
            ItemMaturity::Obsolete => 2,
        }
    }

    /// The stable integer under which a maturity is persisted.
    pub fn code(self) -> (c: i64)
        ensures
            c == self.spec_code(),
    {
        match self {
            ItemMaturity::InProgress => 0,
            ItemMaturity::Released => 1,
            ItemMaturity::Obsolete => 2,
        }
    }

    /// The maturity that a persisted integer stands for, if any.
    pub fn from_code(code: i64) -> (m: Option<ItemMaturity>)
        ensures
            match m {
                Some(m) => m.spec_code() == code,
                None => !(0 <= code <= 2),
            },
    {
        if code == 0 {
            Some(ItemMaturity::InProgress)
        } else if code == 1 {
            Some(ItemMaturity::Released)
        } else if code == 2 {
            Some(ItemMaturity::Obsolete)
        } else {
            None
        }
    }

    /// The words shown to a user for this maturity.
    pub open spec fn spec_label(self) -> Seq<char> {
        match self {
            ItemMaturity::InProgress => "In progress..."@,
            ItemMaturity::Released => "Released"@,
            ItemMaturity::Obsolete => "Obsolete"@,
        }
    }

    /// The words shown to a user for this maturity.
    pub fn label(self) -> (s: &'static str)
        ensures
            s@ == self.spec_label(),
    {
        match self {
            ItemMaturity::InProgress => "In progress...",
            ItemMaturity::Released => "Released",
            ItemMaturity::Obsolete => "Obsolete",
        }
    }
}

/// Whether an item is designed in house or procured.
#[derive(Clone, Copy, Debug, PartialEq, Eq, Structural)]
pub enum Strategy {
    Make,
    Buy,
}

impl Strategy {
    /// The stable integer under which a strategy is persisted.
    pub open spec fn spec_code(self) -> int {
        match self {
            Strategy::Make => 0,
            Strategy::Buy => 1,
        }
    }

    /// The stable integer under which a strategy is persisted.
    pub fn code(self) -> (c: i64)
        ensures
            c == self.spec_code(),
    {
        match self {
            Strategy::Make => 0,
            Strategy::Buy => 1,
        }
    }

    /// The strategy that a persisted integer stands for, if any.
    pub fn from_code(code: i64) -> (s: Option<Strategy>)
        ensures
            match s {
                Some(s) => s.spec_code() == code,
                None => !(0 <= code <= 1),
            },
    {
        if code == 0 {
            Some(Strategy::Make)
        } else if code == 1 {
            Some(Strategy::Buy)
        } else {
            None
        }
    }
}

/// What an item is, as plain values.
pub ghost struct ItemView {
    pub id: int,
    pub pn: Seq<char>,
    pub name: Seq<char>,
    pub version: nat,
    pub maturity: ItemMaturity,
    pub strategy: Strategy,
}

/// A part or an assembly.
#[derive(Debug)]
pub struct Item {
    id: i64,
    pn: String,
    name: String,
    version: usize,
    maturity: ItemMaturity,
    strategy: Strategy,
}

impl View for Item {
    type V = ItemView;

    closed spec fn view(&self) -> ItemView {
        ItemView {
            id: self.id as int,
            pn: self.pn@,
            name: self.name@,
            version: self.version as nat,
            maturity: self.maturity,
            strategy: self.strategy,
        }
    }
}

impl PartialEq for Item {
    /// Two items are the same item where they have the same identifier.
    fn eq(&self, other: &Self) -> (same: bool) {
        self.id == other.id
    }
}

impl vstd::std_specs::cmp::PartialEqSpecImpl for Item {
    open spec fn obeys_eq_spec() -> bool {
        true
    }

    open spec fn eq_spec(&self, other: &Self) -> bool {
        self@.id == other@.id
    }
}

impl Eq for Item {

}

impl Clone for Item {
    fn clone(&self) -> (r: Self)
        ensures
            r == *self,
    {
        Item {
            id: self.id,
            pn: self.pn.clone(),
            name: self.name.clone(),
            version: self.version,
            maturity: self.maturity,
            strategy: self.strategy,
        }
    }
}

impl Item {
    /// An item made of the given values.
    pub fn new(
        id: i64,
        pn: &str,
        name: &str,
        version: usize,
        maturity: ItemMaturity,
        strategy: Strategy,
    ) -> (item: Item)
        ensures
            item@ == (ItemView {
                id: id as int,
                pn: pn@,
                name: name@,
                version: version as nat,
                maturity,
                strategy,
            }),
    {
        Item { id, pn: pn.to_owned(), name: name.to_owned(), version, maturity, strategy }
    }

    /// The line that shows the item to a user: the part number and the
    /// version, on three digits at least, between square brackets, the name
    /// between double quotes, and the maturity.
    pub open spec fn spec_to_string(v: ItemView) -> Seq<char> {
        "["@ + v.pn + "-"@ + crate::text::zero_padded(v.version, 3) + "] \""@ + v.name + "\" - "@
            + v.maturity.spec_label()
    }

    /// The line that shows the item to a user.
    pub fn to_string(&self) -> (line: String)
        ensures
            line@ == Item::spec_to_string(self@),
    {
        let mut line = String::new();
        line.append("[");
        line.append(self.pn.as_str());
        line.append("-");
        let version = crate::text::zero_padded_text(self.version as u64, 3);
        line.append(version.as_str());
        line.append("] \"");
        line.append(self.name.as_str());
        line.append("\" - ");
        line.append(self.maturity.label());
        assert(line@ =~= Item::spec_to_string(self@));
        line
    }

    /// The item that a stored row stands for, where the row can be read: the
    /// version is positive and fits the machine word, and the two codes are
    /// codes of a maturity and of a strategy.
    pub fn from_row(
        id: i64,
        pn: &str,
        name: &str,
        version: i64,
        maturity: i64,
        strategy: i64,
    ) -> (r: Result<Item, Error>)
        ensures
            match r {
                Ok(item) => {
                    &&& 1 <= version <= usize::MAX
                    &&& item@.id == id
                    &&& item@.pn == pn@
                    &&& item@.name == name@
                    &&& item@.version == version
                    &&& item@.maturity.spec_code() == maturity
                    &&& item@.strategy.spec_code() == strategy
                },
                Err(e) => {
                    &&& !(1 <= version <= usize::MAX && 0 <= maturity <= 2 && 0 <= strategy <= 1)
                    &&& e == Error::StorageError(StorageFault::Inconsistent)
                },
            },
    {
        if version < 1 || (version as u64) > (usize::MAX as u64) {
            return Err(Error::StorageError(StorageFault::Inconsistent));
        }
        let maturity = match ItemMaturity::from_code(maturity) {
            Some(maturity) => maturity,
            None => {
                return Err(Error::StorageError(StorageFault::Inconsistent));
            },
        };
        let strategy = match Strategy::from_code(strategy) {
            Some(strategy) => strategy,
            None => {
                return Err(Error::StorageError(StorageFault::Inconsistent));
            },
        };
        Ok(Item::new(id, pn, name, version as usize, maturity, strategy))
    }

    /// The identifier that the store assigned.
    pub fn id(&self) -> (id: i64)
        ensures
            id == self@.id,
    {
        self.id
    }

    /// The part number.
    pub fn pn(&self) -> (pn: &str)
        ensures
            pn@ == self@.pn,
    {
        self.pn.as_str()
    }

    /// The name.
    pub fn name(&self) -> (name: &str)
        ensures
            name@ == self@.name,
    {
        self.name.as_str()
    }

    /// The version, counted from one.
    pub fn version(&self) -> (version: usize)
        ensures
            version == self@.version,
    {
        self.version
    }

    /// The lifecycle stage.
    pub fn maturity(&self) -> (maturity: ItemMaturity)
        ensures
            maturity == self@.maturity,
    {
        self.maturity
    }

    /// Whether the item is designed in house or procured.
    pub fn strategy(&self) -> (strategy: Strategy)
        ensures
            strategy == self@.strategy,
    {
        self.strategy
    }
}

} // verus!
