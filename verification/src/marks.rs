//! Marks on the items of a catalog, one flag for each identifier, as the graph
//! walks use them to visit every item once.

use vstd::prelude::*;

verus! {

/// How many flags are set.
pub open spec fn count_set(flags: Seq<bool>) -> nat
    decreases flags.len(),
{
    if flags.len() == 0 {
        0
    } else {
        count_set(flags.drop_last()) + if flags.last() {
            1nat
        } else {
            0nat
        }
    }
}

/// No more flags are set than there are flags.
pub proof fn lemma_count_set_bound(flags: Seq<bool>)
    ensures
        count_set(flags) <= flags.len(),
    decreases flags.len(),
{
    if flags.len() > 0 {
        lemma_count_set_bound(flags.drop_last());
    }
}

/// Setting a flag that was clear raises the count by one.
pub proof fn lemma_count_set_update(flags: Seq<bool>, i: int)
    requires
        0 <= i < flags.len(),
        !flags[i],
    ensures
        count_set(flags.update(i, true)) == count_set(flags) + 1,
    decreases flags.len(),
{
    let after = flags.update(i, true);
    if i == flags.len() - 1 {
        assert(after.drop_last() =~= flags.drop_last());
    } else {
        lemma_count_set_update(flags.drop_last(), i);
        assert(after.drop_last() =~= flags.drop_last().update(i, true));
    }
}

/// Whether the item with this identifier is marked.
pub open spec fn marked(flags: Seq<bool>, id: int) -> bool {
    1 <= id <= flags.len() && flags[id - 1]
}

/// As many clear flags as asked for.
pub fn clear_flags(count: usize) -> (flags: Vec<bool>)
    ensures
        flags@.len() == count,
        forall|i: int| 0 <= i < count ==> !flags@[i],
        count_set(flags@) == 0,
{
    let mut flags: Vec<bool> = Vec::new();
    let mut i: usize = 0;
    while i < count
        invariant
            i <= count,
            flags@.len() == i,
            forall|k: int| 0 <= k < i ==> !flags@[k],
            count_set(flags@) == 0,
        decreases count - i,
    {
        let ghost before = flags@;
        flags.push(false);
        assert(flags@.drop_last() =~= before);
        i += 1;
    }
    flags
}

} // verus!
