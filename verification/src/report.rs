//! The flattened requirements of an item: every item below it, once, with the
//! quantity accumulated over the ways that lead to it.

use crate::children::ChildRef;
use crate::database::{Item, ItemView};
use vstd::prelude::*;

verus! {

/// The mapping of a report: from the identifier of an item to the item and
/// its accumulated quantity.
pub type Requirements = Map<int, (ItemView, nat)>;

/// The quantity that a mapping holds for an item; zero where it holds none.
pub open spec fn quantity_in(m: Requirements, id: int) -> nat {
    if m.dom().contains(id) {
        m[id].1
    } else {
        0
    }
}

/// A mapping with a quantity of an item added to what it held for that item.
pub open spec fn with_quantity(m: Requirements, item: ItemView, quantity: nat) -> Requirements {
    m.insert(item.id, (item, quantity_in(m, item.id) + quantity))
}

/// Two mappings merged: each item of either, with the sum of its quantities.
pub open spec fn merged(a: Requirements, b: Requirements) -> Requirements {
    Map::new(
        |id: int| a.dom().contains(id) || b.dom().contains(id),
        |id: int|
            (
                if a.dom().contains(id) {
                    a[id].0
                } else {
                    b[id].0
                },
                quantity_in(a, id) + quantity_in(b, id),
            ),
    )
}

/// Whether every quantity of a mapping fits the machine word.
pub open spec fn quantities_fit(m: Requirements) -> bool {
    forall|id: int| m.dom().contains(id) ==> (#[trigger] m[id]).1 <= usize::MAX
}

/// Whether each key of a mapping is the identifier of the item stored under
/// it.
pub open spec fn keyed_by_id(m: Requirements) -> bool {
    forall|id: int| m.dom().contains(id) ==> (#[trigger] m[id]).0.id == id
}

/// The mapping that a sequence of rows stands for.
spec fn rows_map(rows: Seq<(Item, usize)>) -> Requirements
    decreases rows.len(),
{
    if rows.len() == 0 {
        Map::empty()
    } else {
        rows_map(rows.drop_last()).insert(rows.last().0@.id, (rows.last().0@, rows.last().1 as nat))
    }
}

spec fn distinct_ids(rows: Seq<(Item, usize)>) -> bool {
    forall|i: int, j: int|
        0 <= i < j < rows.len() ==> (#[trigger] rows[i]).0@.id != (#[trigger] rows[j]).0@.id
}

spec fn has_row(rows: Seq<(Item, usize)>, id: int) -> bool {
    exists|i: int| 0 <= i < rows.len() && (#[trigger] rows[i]).0@.id == id
}

proof fn lemma_rows_map_dom(rows: Seq<(Item, usize)>, id: int)
    ensures
        rows_map(rows).dom().contains(id) <==> has_row(rows, id),
    decreases rows.len(),
{
    if rows.len() > 0 {
        let front = rows.drop_last();
        lemma_rows_map_dom(front, id);
        if rows_map(rows).dom().contains(id) {
            if rows.last().0@.id == id {
                assert(rows[rows.len() - 1].0@.id == id);
            } else {
                let i = choose|i: int| 0 <= i < front.len() && (#[trigger] front[i]).0@.id == id;
                assert(rows[i].0@.id == id);
            }
        }
        if has_row(rows, id) {
            let i = choose|i: int| 0 <= i < rows.len() && (#[trigger] rows[i]).0@.id == id;
            if i < front.len() {
                assert(front[i].0@.id == id);
            }
        }
    }
}

proof fn lemma_rows_map_value(rows: Seq<(Item, usize)>, i: int)
    requires
        distinct_ids(rows),
        0 <= i < rows.len(),
    ensures
        rows_map(rows).dom().contains(rows[i].0@.id),
        rows_map(rows)[rows[i].0@.id] == (rows[i].0@, rows[i].1 as nat),
    decreases rows.len(),
{
    let front = rows.drop_last();
    if i < rows.len() - 1 {
        assert(distinct_ids(front)) by {
            assert forall|a: int, b: int| 0 <= a < b < front.len() implies (#[trigger] front[a]).0@.id
                != (#[trigger] front[b]).0@.id by {
                assert(rows[a].0@.id != rows[b].0@.id);
            }
        }
        lemma_rows_map_value(front, i);
        assert(front[i] == rows[i]);
        assert(rows[i].0@.id != rows[rows.len() - 1].0@.id);
    }
}

proof fn lemma_rows_map_finite(rows: Seq<(Item, usize)>)
    requires
        distinct_ids(rows),
    ensures
        rows_map(rows).dom().finite(),
        rows_map(rows).dom().len() == rows.len(),
    decreases rows.len(),
{
    if rows.len() > 0 {
        let front = rows.drop_last();
        assert(distinct_ids(front)) by {
            assert forall|a: int, b: int| 0 <= a < b < front.len() implies (#[trigger] front[a]).0@.id
                != (#[trigger] front[b]).0@.id by {
                assert(rows[a].0@.id != rows[b].0@.id);
            }
        }
        lemma_rows_map_finite(front);
        lemma_rows_map_dom(front, rows.last().0@.id);
        if has_row(front, rows.last().0@.id) {
            let i = choose|i: int|
                0 <= i < front.len() && (#[trigger] front[i]).0@.id == rows.last().0@.id;
            assert(rows[i].0@.id != rows[rows.len() - 1].0@.id);
        }
    }
}

/// The flattened requirements of an item.
pub struct Report {
    rows: Vec<(Item, usize)>,
}

impl View for Report {
    type V = Requirements;

    closed spec fn view(&self) -> Requirements {
        rows_map(self.rows@)
    }
}

impl Report {
    /// Whether no item is listed twice.
    pub closed spec fn wf(&self) -> bool {
        distinct_ids(self.rows@)
    }

    /// A well-formed report lists finitely many items, each under its own
    /// identifier and with a quantity that fits the machine word.
    pub proof fn lemma_wf_view(&self)
        requires
            self.wf(),
        ensures
            self@.dom().finite(),
            keyed_by_id(self@),
            quantities_fit(self@),
    {
        lemma_rows_map_finite(self.rows@);
        assert forall|id: int| self@.dom().contains(id) implies (#[trigger] self@[id]).0.id == id
            && self@[id].1 <= usize::MAX by {
            lemma_rows_map_dom(self.rows@, id);
            let i = choose|i: int| 0 <= i < self.rows@.len() && (#[trigger] self.rows@[i]).0@.id == id;
            lemma_rows_map_value(self.rows@, i);
        }
    }

    /// A report that lists nothing.
    pub fn new() -> (report: Report)
        ensures
            report.wf(),
            report@ == Requirements::empty(),
    {
        Report { rows: Vec::new() }
    }

    /// The number of items listed.
    pub fn len(&self) -> (len: usize)
        requires
            self.wf(),
        ensures
            len == self@.len(),
    {
        proof {
            lemma_rows_map_finite(self.rows@);
        }
        self.rows.len()
    }

    /// Whether no item is listed.
    pub fn is_empty(&self) -> (empty: bool)
        requires
            self.wf(),
        ensures
            empty == (self@.len() == 0),
    {
        proof {
            lemma_rows_map_finite(self.rows@);
        }
        self.rows.len() == 0
    }

    /// The position of the row of an item.
    fn position(&self, id: i64) -> (found: Option<usize>)
        ensures
            match found {
                Some(i) => i < self.rows@.len() && self.rows@[i as int].0@.id == id,
                None => !has_row(self.rows@, id as int),
            },
    {
        let mut i: usize = 0;
        while i < self.rows.len()
            invariant
                i <= self.rows@.len(),
                forall|k: int| 0 <= k < i ==> (#[trigger] self.rows@[k]).0@.id != id,
            decreases self.rows@.len() - i,
        {
            if self.rows[i].0.id() == id {
                return Some(i);
            }
            i += 1;
        }
        None
    }

    /// The row of an item, if the report lists it.
    pub fn get(&self, id: i64) -> (row: Option<ChildRef<'_>>)
        requires
            self.wf(),
        ensures
            match row {
                Some(row) => self@.dom().contains(id as int) && row@ == self@[id as int],
                None => !self@.dom().contains(id as int),
            },
    {
        proof {
            lemma_rows_map_dom(self.rows@, id as int);
        }
        match self.position(id) {
            Some(i) => {
                proof {
                    lemma_rows_map_value(self.rows@, i as int);
                }
                let row = &self.rows[i];
                Some(ChildRef { item: &row.0, quantity: row.1 })
            },
            None => None,
        }
    }

    /// The accumulated quantity of an item; zero where the report does not
    /// list it.
    pub fn quantity_of(&self, id: i64) -> (quantity: usize)
        requires
            self.wf(),
        ensures
            quantity == quantity_in(self@, id as int),
    {
        match self.get(id) {
            Some(row) => row.quantity,
            None => 0,
        }
    }

    /// Adds a quantity of an item to what the report holds for that item.
    fn bump(&mut self, item: &Item, quantity: usize)
        requires
            old(self).wf(),
            quantity_in(old(self)@, item@.id) + quantity <= usize::MAX,
            old(self)@.dom().contains(item@.id) ==> old(self)@[item@.id].0 == item@,
        ensures
            final(self).wf(),
            final(self)@ == with_quantity(old(self)@, item@, quantity as nat),
    {
        let ghost before = self.rows@;
        let ghost id = item@.id;
        proof {
            lemma_rows_map_dom(before, id);
        }
        match self.position(item.id()) {
            Some(i) => {
                proof {
                    lemma_rows_map_value(before, i as int);
                }
                let sum = self.rows[i].1 + quantity;
                self.rows.set(i, (item.clone(), sum));
            },
            None => {
                self.rows.push((item.clone(), quantity));
                assert(self.rows@.drop_last() =~= before);
            },
        }
        proof {
            let after = self.rows@;
            assert(distinct_ids(after)) by {
                assert forall|a: int, b: int| 0 <= a < b < after.len() implies (
                #[trigger] after[a]).0@.id != (#[trigger] after[b]).0@.id by {
                    if b < before.len() {
                        assert(before[a].0@.id != before[b].0@.id);
                    } else {
                        assert(before[a].0@.id != id);
                    }
                }
            }
            let target = with_quantity(rows_map(before), item@, quantity as nat);
            assert forall|k: int| rows_map(after).dom().contains(k) <==> target.dom().contains(
                k,
            ) by {
                lemma_rows_map_dom(after, k);
                lemma_rows_map_dom(before, k);
                if has_row(after, k) {
                    let j = choose|j: int| 0 <= j < after.len() && (#[trigger] after[j]).0@.id == k;
                    if k != id {
                        assert(before[j].0@.id == k);
                    }
                }
                if has_row(before, k) {
                    let j = choose|j: int|
                        0 <= j < before.len() && (#[trigger] before[j]).0@.id == k;
                    assert(after[j].0@.id == k);
                }
                if k == id {
                    let j = if after.len() == before.len() {
                        choose|j: int| 0 <= j < after.len() && after[j].0@.id == id
                    } else {
                        before.len() as int
                    };
                    assert(after[j].0@.id == k);
                }
            }
            assert forall|k: int| rows_map(after).dom().contains(k) implies rows_map(after)[k]
                == target[k] by {
                lemma_rows_map_dom(after, k);
                let j = choose|j: int| 0 <= j < after.len() && (#[trigger] after[j]).0@.id == k;
                lemma_rows_map_value(after, j);
                if k != id {
                    assert(before[j].0@.id == k);
                    lemma_rows_map_value(before, j);
                }
            }
            assert(rows_map(after) =~= target);
        }
    }

    /// Whether the quantities would fit the machine word after `add`.
    fn fits_with(&self, child: &ChildRef<'_>, other: &Report) -> (fits: bool)
        requires
            self.wf(),
            other.wf(),
        ensures
            fits == quantities_fit(merged(with_quantity(self@, child@.0, child@.1), other@)),
    {
        let ghost base = with_quantity(self@, child@.0, child@.1);
        let ghost sum = merged(base, other@);
        let child_id = child.id();
        let held = self.quantity_of(child_id);
        if held > usize::MAX - child.quantity {
            assert(sum.dom().contains(child@.0.id));
            assert(sum[child@.0.id].1 > usize::MAX);
            return false;
        }
        let mut i: usize = 0;
        while i < other.rows.len()
            invariant
                self.wf(),
                other.wf(),
                i <= other.rows@.len(),
                base == with_quantity(self@, child@.0, child@.1),
                sum == merged(base, other@),
                child_id == child@.0.id,
                quantity_in(base, child_id as int) <= usize::MAX,
                forall|k: int|
                    0 <= k < i ==> quantity_in(base, (#[trigger] other.rows@[k]).0@.id)
                        + other.rows@[k].1 <= usize::MAX,
            decreases other.rows@.len() - i,
        {
            let row = &other.rows[i];
            let id = row.0.id();
            let here = self.quantity_of(id);
            let extra = if id == child_id {
                child.quantity
            } else {
                0
            };
            proof {
                lemma_rows_map_value(other.rows@, i as int);
                assert(quantity_in(base, id as int) == here + extra);
            }
            if here + extra > usize::MAX - row.1 {
                assert(sum.dom().contains(id as int));
                assert(sum[id as int].1 > usize::MAX);
                return false;
            }
            i += 1;
        }
        proof {
            self.lemma_wf_view();
            assert forall|id: int| sum.dom().contains(id) implies (#[trigger] sum[id]).1
                <= usize::MAX by {
                lemma_rows_map_dom(other.rows@, id);
                if other@.dom().contains(id) {
                    let k = choose|k: int|
                        0 <= k < other.rows@.len() && (#[trigger] other.rows@[k]).0@.id == id;
                    lemma_rows_map_value(other.rows@, k);
                } else if id != child_id {
                    assert(self@[id].1 <= usize::MAX);
                }
            }
        }
        true
    }

    /// Adds a quantity of a child, and with it the requirements of that
    /// child. Where a quantity would no longer fit the machine word, nothing
    /// is added and the answer is `false`.
    pub fn add(&mut self, child: ChildRef<'_>, other: Report) -> (fits: bool)
        requires
            old(self).wf(),
            other.wf(),
            old(self)@.dom().contains(child@.0.id) ==> old(self)@[child@.0.id].0 == child@.0,
            forall|id: int|
                other@.dom().contains(id) && with_quantity(
                    old(self)@,
                    child@.0,
                    child@.1,
                ).dom().contains(id) ==> with_quantity(old(self)@, child@.0, child@.1)[id].0
                    == other@[id].0,
        ensures
            final(self).wf(),
            fits == quantities_fit(merged(with_quantity(old(self)@, child@.0, child@.1), other@)),
            final(self)@ == if fits {
                merged(with_quantity(old(self)@, child@.0, child@.1), other@)
            } else {
                old(self)@
            },
    {
        if !self.fits_with(&child, &other) {
            return false;
        }
        let ghost base = with_quantity(self@, child@.0, child@.1);
        let ghost sum = merged(base, other@);
        proof {
            self.lemma_wf_view();
            assert(sum.dom().contains(child@.0.id));
            assert(sum[child@.0.id].1 >= quantity_in(self@, child@.0.id) + child@.1);
        }
        self.bump(child.item, child.quantity);
        let mut i: usize = 0;
        assert(self@ =~= merged(base, rows_map(other.rows@.take(0))));
        while i < other.rows.len()
            invariant
                self.wf(),
                other.wf(),
                i <= other.rows@.len(),
                sum == merged(base, other@),
                quantities_fit(sum),
                self@ == merged(base, rows_map(other.rows@.take(i as int))),
                forall|id: int|
                    other@.dom().contains(id) && base.dom().contains(id) ==> base[id].0
                        == other@[id].0,
            decreases other.rows@.len() - i,
        {
            let row = &other.rows[i];
            let ghost done = other.rows@.take(i as int);
            let ghost next = other.rows@.take(i + 1);
            let ghost id = row.0@.id;
            proof {
                assert(next.drop_last() =~= done);
                assert(next.last() == other.rows@[i as int]);
                assert(distinct_ids(next));
                lemma_rows_map_value(other.rows@, i as int);
                lemma_rows_map_dom(done, id);
                if has_row(done, id) {
                    let k = choose|k: int| 0 <= k < done.len() && (#[trigger] done[k]).0@.id == id;
                    assert(other.rows@[k].0@.id != other.rows@[i as int].0@.id);
                }
                assert(sum.dom().contains(id));
                assert(sum[id].1 == quantity_in(base, id) + row.1);
                assert(quantity_in(self@, id) == quantity_in(base, id));
            }
            self.bump(&row.0, row.1);
            proof {
                assert(self@ =~= merged(base, rows_map(next)));
            }
            i += 1;
        }
        assert(other.rows@.take(i as int) =~= other.rows@);
        true
    }

    /// A cursor on the first row.
    pub fn iter(&self) -> (cursor: ReportIter<'_>)
        ensures
            cursor.position() == 0,
            cursor.report() == self,
    {
        ReportIter { report: self, position: 0 }
    }

    /// The number of rows, as a cursor counts them.
    pub closed spec fn row_count(&self) -> nat {
        self.rows@.len()
    }

    /// The row at a position, as a cursor meets it.
    pub closed spec fn row(&self, index: int) -> (ItemView, nat) {
        (self.rows@[index].0@, self.rows@[index].1 as nat)
    }

    /// The rows, one after the other, are exactly the items of the mapping:
    /// as many rows as items, each row under the identifier of its item.
    pub proof fn lemma_rows_are_the_mapping(&self)
        requires
            self.wf(),
        ensures
            self@.dom().finite(),
            self.row_count() == self@.len(),
            forall|i: int|
                0 <= i < self.row_count() ==> self@.dom().contains((#[trigger] self.row(i)).0.id)
                    && self@[self.row(i).0.id] == self.row(i),
            forall|i: int, j: int|
                0 <= i < j < self.row_count() ==> (#[trigger] self.row(i)).0.id != (
                #[trigger] self.row(j)).0.id,
    {
        lemma_rows_map_finite(self.rows@);
        assert forall|i: int| 0 <= i < self.row_count() implies self@.dom().contains(
            (#[trigger] self.row(i)).0.id,
        ) && self@[self.row(i).0.id] == self.row(i) by {
            lemma_rows_map_value(self.rows@, i);
        }
    }
}

/// A cursor that hands out the rows of a report one after the other, in no
/// order that callers can rely on.
pub struct ReportIter<'a> {
    report: &'a Report,
    position: usize,
}

impl<'a> ReportIter<'a> {
    /// The report that the cursor walks.
    pub closed spec fn report(&self) -> &Report {
        self.report
    }

    /// The number of rows handed out so far.
    pub closed spec fn position(&self) -> nat {
        self.position as nat
    }

    /// Hands out the next row and moves on; `None` once all are handed out.
    pub fn next(&mut self) -> (row: Option<ChildRef<'a>>)
        ensures
            final(self).report() == old(self).report(),
            match row {
                Some(row) => {
                    &&& old(self).position() < old(self).report().row_count()
                    &&& row@ == old(self).report().row(old(self).position() as int)
                    &&& final(self).position() == old(self).position() + 1
                },
                None => {
                    &&& old(self).position() >= old(self).report().row_count()
                    &&& final(self).position() == old(self).position()
                },
            },
    {
        let report: &'a Report = self.report;
        if self.position < report.rows.len() {
            let row = &report.rows[self.position];
            self.position = self.position + 1;
            Some(ChildRef { item: &row.0, quantity: row.1 })
        } else {
            None
        }
    }
}

} // verus!
