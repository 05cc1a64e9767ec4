//! The direct children of an item, each with the quantity that goes into one
//! unit of the parent.

use crate::database::{child_rows, Item, ItemMaturity, ItemView};
use vstd::prelude::*;

verus! {

/// The direct children of an item, in the order in which they were linked.
pub struct Children(Vec<(Item, usize)>);

impl View for Children {
    type V = Seq<(ItemView, nat)>;

    closed spec fn view(&self) -> Seq<(ItemView, nat)> {
        child_rows(self.0@)
    }
}

impl Default for Children {
    fn default() -> (children: Children)
        ensures
            children@ == Seq::<(ItemView, nat)>::empty(),
    {
        let children = Children(Vec::new());
        assert(children@ =~= Seq::<(ItemView, nat)>::empty());
        children
    }
}

impl Children {
    /// The children that the given rows list.
    pub fn new(rows: Vec<(Item, usize)>) -> (children: Children)
        ensures
            children@ == child_rows(rows@),
    {
        Children(rows)
    }

    /// The number of children.
    pub fn len(&self) -> (len: usize)
        ensures
            len == self@.len(),
    {
        self.0.len()
    }

    /// Whether there is no child.
    pub fn is_empty(&self) -> (empty: bool)
        ensures
            empty == (self@.len() == 0),
    {
        self.0.len() == 0
    }

    /// The child at a position, if there is one.
    pub fn get(&self, index: usize) -> (child: Option<ChildRef<'_>>)
        ensures
            match child {
                Some(child) => index < self@.len() && child@ == self@[index as int],
                None => index >= self@.len(),
            },
    {
        if index < self.0.len() {
            let row = &self.0[index];
            Some(ChildRef { item: &row.0, quantity: row.1 })
        } else {
            None
        }
    }

    /// A cursor on the first child.
    pub fn iter(&self) -> (cursor: ChildIter<'_>)
        ensures
            cursor.remaining() == self@,
    {
        let cursor = ChildIter { children: self, position: 0 };
        assert(cursor.remaining() =~= self@);
        cursor
    }
}

/// A cursor that hands out the children one after the other.
pub struct ChildIter<'a> {
    children: &'a Children,
    position: usize,
}

impl<'a> ChildIter<'a> {
    /// The children that the cursor has yet to hand out.
    pub closed spec fn remaining(&self) -> Seq<(ItemView, nat)> {
        if self.position <= self.children@.len() {
            self.children@.skip(self.position as int)
        } else {
            Seq::empty()
        }
    }

    /// Hands out the next child and moves on; `None` once all are handed out.
    pub fn next(&mut self) -> (child: Option<ChildRef<'a>>)
        ensures
            match child {
                Some(child) => {
                    &&& old(self).remaining().len() > 0
                    &&& child@ == old(self).remaining()[0]
                    &&& final(self).remaining() == old(self).remaining().drop_first()
                },
                None => old(self).remaining().len() == 0 && final(self).remaining() == old(
                    self,
                ).remaining(),
            },
    {
        let children: &'a Children = self.children;
        if self.position < children.len() {
            let child = children.get(self.position);
            self.position = self.position + 1;
            assert(self.remaining() =~= old(self).remaining().drop_first());
            child
        } else {
            None
        }
    }
}

/// One child of an item, borrowed from a listing.
pub struct ChildRef<'a> {
    pub item: &'a Item,
    pub quantity: usize,
}

impl<'a> View for ChildRef<'a> {
    type V = (ItemView, nat);

    open spec fn view(&self) -> (ItemView, nat) {
        (self.item@, self.quantity as nat)
    }
}

impl<'a> ChildRef<'a> {
    /// The identifier of the child.
    pub fn id(&self) -> (id: i64)
        ensures
            id == self@.0.id,
    {
        self.item.id()
    }

    /// The name of the child.
    pub fn name(&self) -> (name: &'a str)
        ensures
            name@ == self@.0.name,
    {
        self.item.name()
    }

    /// The part number of the child.
    pub fn pn(&self) -> (pn: &'a str)
        ensures
            pn@ == self@.0.pn,
    {
        self.item.pn()
    }

    /// The maturity of the child.
    pub fn maturity(&self) -> (maturity: ItemMaturity)
        ensures
            maturity == self@.0.maturity,
    {
        self.item.maturity()
    }

    /// The child itself.
    pub fn item(&self) -> (item: &'a Item)
        ensures
            item@ == self@.0,
    {
        self.item
    }

    /// How many units of the child go into one unit of the parent.
    pub fn quantity(&self) -> (quantity: usize)
        ensures
            quantity == self@.1,
    {
        self.quantity
    }
}

/// One child of an item, owned.
pub struct Child {
    pub item: Item,
    pub quantity: usize,
}

impl View for Child {
    type V = (ItemView, nat);

    open spec fn view(&self) -> (ItemView, nat) {
        (self.item@, self.quantity as nat)
    }
}

impl<'a> From<ChildRef<'a>> for Child {
    fn from(value: ChildRef<'a>) -> (child: Child) {
        Child { item: value.item.clone(), quantity: value.quantity }
    }
}

impl<'a> vstd::std_specs::convert::FromSpecImpl<ChildRef<'a>> for Child {
    open spec fn obeys_from_spec() -> bool {
        true
    }

    open spec fn from_spec(value: ChildRef<'a>) -> Child {
        Child { item: *value.item, quantity: value.quantity }
    }
}

} // verus!
