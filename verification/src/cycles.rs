//! Cycles in a bill of materials, and why the ways down from an item have a
//! longest one exactly where no cycle lies below the item.

use crate::tables::Tables;
use vstd::prelude::*;

verus! {

impl Tables {
    /// Whether a cycle lies below an item: the item, or an item below it,
    /// lies below itself.
    pub open spec fn cycle_below(self, root: int) -> bool {
        exists|id: int| (id == root || self.reachable(root, id)) && #[trigger] self.reachable(id, id)
    }
}

/// Two paths, the second starting where the first ends, make one path.
pub proof fn lemma_paths_join(t: Tables, first: Seq<int>, second: Seq<int>)
    requires
        t.is_path(first),
        t.is_path(second),
        first.len() >= 1,
        second.len() >= 1,
        first.last() == second[0],
    ensures
        t.is_path(first + second.drop_first()),
        (first + second.drop_first()).len() == first.len() + second.len() - 1,
        (first + second.drop_first())[0] == first[0],
        (first + second.drop_first()).last() == second.last(),
{
    let joined = first + second.drop_first();
    assert forall|k: int| 0 <= k < joined.len() - 1 implies t.has_link(
        #[trigger] joined[k],
        joined[k + 1],
    ) by {
        if k < first.len() - 1 {
            assert(t.has_link(first[k], first[k + 1]));
        } else if k == first.len() - 1 {
            assert(t.has_link(second[0], second[0int + 1]));
        } else {
            let m = k - first.len() + 1;
            assert(t.has_link(second[m], second[m + 1]));
        }
    }
}

/// What lies below an item that lies below another lies below that other.
pub proof fn lemma_reach_transitive(t: Tables, from: int, via: int, to: int)
    requires
        t.reachable(from, via),
        t.reachable(via, to),
    ensures
        t.reachable(from, to),
{
    let first = choose|path: Seq<int>|
        #[trigger] t.is_path(path) && path.len() >= 2 && path[0] == from && path.last() == via;
    let second = choose|path: Seq<int>|
        #[trigger] t.is_path(path) && path.len() >= 2 && path[0] == via && path.last() == to;
    lemma_paths_join(t, first, second);
}

/// From an item on a cycle, ways of any length lead down.
pub proof fn lemma_cycle_is_deep(t: Tables, id: int, depth: nat)
    requires
        t.reachable(id, id),
    ensures
        t.deeper_than(id, depth),
    decreases depth,
{
    let cycle = choose|path: Seq<int>|
        #[trigger] t.is_path(path) && path.len() >= 2 && path[0] == id && path.last() == id;
    if depth == 0 {
        assert(t.is_path(cycle) && cycle.len() > 0 + 1 && cycle[0] == id);
    } else {
        lemma_cycle_is_deep(t, id, (depth - 1) as nat);
        let way = choose|path: Seq<int>|
            #[trigger] t.is_path(path) && path.len() > (depth - 1) + 1 && path[0] == id;
        lemma_paths_join(t, cycle, way);
        assert(t.is_path(cycle + way.drop_first()));
    }
}

/// Where a cycle lies below an item, ways of any length lead down from the
/// item.
pub proof fn lemma_cycle_below_is_deep(t: Tables, root: int, depth: nat)
    requires
        t.cycle_below(root),
    ensures
        t.deeper_than(root, depth),
{
    let id = choose|id: int| (id == root || t.reachable(root, id)) && #[trigger] t.reachable(id, id);
    lemma_cycle_is_deep(t, id, depth);
    if id != root {
        let down = choose|path: Seq<int>|
            #[trigger] t.is_path(path) && path.len() >= 2 && path[0] == root && path.last() == id;
        let way = choose|path: Seq<int>|
            #[trigger] t.is_path(path) && path.len() > depth + 1 && path[0] == id;
        lemma_paths_join(t, down, way);
        assert(t.is_path(down + way.drop_first()));
    }
}

/// More numbers than there are values for them hold one value twice.
pub proof fn lemma_pigeonhole(s: Seq<int>, n: nat)
    requires
        s.len() > n,
        forall|k: int| 0 <= k < s.len() ==> 1 <= #[trigger] s[k] <= n,
    ensures
        exists|i: int, j: int| 0 <= i < j < s.len() && #[trigger] s[i] == #[trigger] s[j],
    decreases n,
{
    if n == 0 {
        assert(1 <= s[0] <= 0);
    } else if exists|a: int| 0 <= a < s.len() && #[trigger] s[a] == n {
        let a = choose|a: int| 0 <= a < s.len() && #[trigger] s[a] == n;
        if exists|b: int| 0 <= b < s.len() && b != a && #[trigger] s[b] == n {
            let b = choose|b: int| 0 <= b < s.len() && b != a && #[trigger] s[b] == n;
            if a < b {
                assert(s[a] == s[b]);
            } else {
                assert(s[b] == s[a]);
            }
        } else {
            let rest = s.remove(a);
            assert forall|k: int| 0 <= k < rest.len() implies 1 <= #[trigger] rest[k] <= n - 1 by {
                let k0 = if k < a {
                    k
                } else {
                    k + 1
                };
                assert(rest[k] == s[k0]);
                assert(1 <= s[k0] <= n);
            }
            lemma_pigeonhole(rest, (n - 1) as nat);
            let (i, j) = choose|i: int, j: int|
                0 <= i < j < rest.len() && #[trigger] rest[i] == #[trigger] rest[j];
            let i0 = if i < a {
                i
            } else {
                i + 1
            };
            let j0 = if j < a {
                j
            } else {
                j + 1
            };
            assert(rest[i] == s[i0] && rest[j] == s[j0]);
            assert(s[i0] == s[j0]);
        }
    } else {
        assert forall|k: int| 0 <= k < s.len() implies 1 <= #[trigger] s[k] <= n - 1 by {
            assert(1 <= s[k] <= n);
        }
        lemma_pigeonhole(s, (n - 1) as nat);
    }
}

/// A part of a path is a path.
pub proof fn lemma_path_part(t: Tables, path: Seq<int>, from: int, to: int)
    requires
        t.is_path(path),
        0 <= from <= to < path.len(),
    ensures
        t.is_path(path.subrange(from, to + 1)),
{
    let part = path.subrange(from, to + 1);
    assert forall|k: int| 0 <= k < part.len() - 1 implies t.has_link(
        #[trigger] part[k],
        part[k + 1],
    ) by {
        assert(t.has_link(path[from + k], path[from + k + 1]));
    }
}

/// A way down with more links than there are items goes through a cycle.
pub proof fn lemma_deep_holds_cycle(t: Tables, root: int)
    requires
        t.valid(),
        t.deeper_than(root, t.items.len()),
    ensures
        t.cycle_below(root),
{
    let n = t.items.len();
    let path = choose|path: Seq<int>|
        #[trigger] t.is_path(path) && path.len() > n + 1 && path[0] == root;
    let below = path.drop_first();
    assert forall|k: int| 0 <= k < below.len() implies 1 <= #[trigger] below[k] <= n by {
        assert(t.has_link(path[k], path[k + 1]));
        let i = choose|i: int|
            0 <= i < t.links.len() && (#[trigger] t.links[i]).parent_id == path[k]
                && t.links[i].child_id == path[k + 1];
        assert(t.has_item(t.links[i].child_id as int));
    }
    lemma_pigeonhole(below, n);
    let (i, j) = choose|i: int, j: int|
        0 <= i < j < below.len() && #[trigger] below[i] == #[trigger] below[j];
    let id = below[i];
    // The path from the first to the second visit is a cycle.
    lemma_path_part(t, path, i + 1, j + 1);
    let cycle = path.subrange(i + 1, j + 2);
    assert(cycle[0] == id && cycle.last() == id);
    assert(t.is_path(cycle) && cycle.len() >= 2);
    assert(t.reachable(id, id));
    // The path up to the first visit leads down to it.
    lemma_path_part(t, path, 0, i + 1);
    let down = path.subrange(0, i + 2);
    assert(down[0] == root && down.last() == id);
    assert(t.is_path(down) && down.len() >= 2);
    assert(t.reachable(root, id));
}

/// The ways down from an item have more links than there are items exactly
/// where a cycle lies below the item.
pub proof fn lemma_deep_iff_cycle(t: Tables, root: int)
    requires
        t.valid(),
    ensures
        t.deeper_than(root, t.items.len()) <==> t.cycle_below(root),
{
    if t.cycle_below(root) {
        lemma_cycle_below_is_deep(t, root, t.items.len());
    }
    if t.deeper_than(root, t.items.len()) {
        lemma_deep_holds_cycle(t, root);
    }
}

/// The explosion of an item can be computed exactly where no cycle lies
/// below the item and every quantity that it requires fits the machine word.
pub proof fn lemma_explosion_fits_iff(t: Tables, root: int)
    requires
        t.valid(),
    ensures
        t.explosion_fits(root) <==> !t.cycle_below(root) && forall|id: int| #[trigger]
            t.quantity_below(root, id, t.items.len()) <= usize::MAX,
{
    lemma_deep_iff_cycle(t, root);
}

/// An item on a cycle is never released: it lies below itself, and it is in
/// progress as long as it can be released.
pub proof fn lemma_cycle_blocks_release(t: Tables, id: int)
    requires
        t.reachable(id, id),
    ensures
        t.release_refusal(id) is Some,
{
}

} // verus!
