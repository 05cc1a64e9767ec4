//! What the interactive shell writes: the lines that answer its commands.

use crate::database::{child_rows, item_views, ChildLink, Database, Item, ItemView, Tables};
use crate::explosion::{lemma_deeper_down, lemma_deeper_up, lemma_links_from};
use crate::report::Report;
use crate::store::Store;
use crate::text::{count_text, decimal_digits};
use vstd::prelude::*;

verus! {

/// The commands of the shell, as the `help` command lists them.
pub const COMMANDS: &'static str = "
 - help                                           This help
 - exit                                           Exit the pbs REPL
 - item make <NAME>                               Create a \"make\" item, allocating a PN
 - item buy <PART_NUMBER> <NAME>                  Create a \"Buy\" item, with it's external PN
 - list                                           List all items in the store
 - child add <PARENT_ID> <CHILD_ID> <QUANTITY>    Add a child item to an parent item
 - child del <PARENT_ID> <CHILD_ID>               Remove a child item from a parent item
 - tree <ID>                                      Show the children recursively of an item
 - where-used <ID>                                Show all items where the given <PN> is used";

/// What the shell says once an item is created: `  ADDED <item>`.
pub fn added_line(item: &Item) -> (line: String)
    ensures
        line@ == "  ADDED "@ + Item::spec_to_string(item@),
{
    let mut line = String::new();
    line.append("  ADDED ");
    let shown = item.to_string();
    line.append(shown.as_str());
    assert(line@ =~= "  ADDED "@ + Item::spec_to_string(item@));
    line
}

/// What the shell says once an item is released: `  RELEASED : <item>`.
pub fn released_line(item: &Item) -> (line: String)
    ensures
        line@ == "  RELEASED : "@ + Item::spec_to_string(item@),
{
    let mut line = String::new();
    line.append("  RELEASED : ");
    let shown = item.to_string();
    line.append(shown.as_str());
    assert(line@ =~= "  RELEASED : "@ + Item::spec_to_string(item@));
    line
}

/// An item as an entry of a list: `  - <item>`.
pub open spec fn spec_entry(item: ItemView) -> Seq<char> {
    "  - "@ + Item::spec_to_string(item)
}

/// An item as an entry of a list.
pub fn entry(item: &Item) -> (line: String)
    ensures
        line@ == spec_entry(item@),
{
    let mut line = String::new();
    line.append("  - ");
    let shown = item.to_string();
    line.append(shown.as_str());
    assert(line@ =~= spec_entry(item@));
    line
}

/// What lines are, as plain values.
pub open spec fn line_views(lines: Seq<String>) -> Seq<Seq<char>> {
    lines.map_values(|line: String| line@)
}

/// The entries of a list of items.
pub open spec fn spec_entries(items: Seq<ItemView>) -> Seq<Seq<char>> {
    items.map_values(|item: ItemView| spec_entry(item))
}

/// The lines that list items, one entry for each.
pub fn list_lines(items: &Vec<Item>) -> (lines: Vec<String>)
    ensures
        line_views(lines@) == spec_entries(item_views(items@)),
{
    let mut lines: Vec<String> = Vec::new();
    let mut i: usize = 0;
    while i < items.len()
        invariant
            i <= items@.len(),
            line_views(lines@) == spec_entries(item_views(items@).take(i as int)),
        decreases items@.len() - i,
    {
        let ghost before = lines@;
        lines.push(entry(&items[i]));
        assert(line_views(lines@) =~= line_views(before).push(spec_entry(items@[i as int]@)));
        assert(line_views(lines@) =~= spec_entries(item_views(items@).take(i + 1)));
        i += 1;
    }
    assert(item_views(items@).take(i as int) =~= item_views(items@));
    lines
}

/// The lines that answer `where-used`: `<item> parents :`, then one entry
/// for each parent.
pub fn where_used_lines(child: &Item, parents: &Vec<Item>) -> (lines: Vec<String>)
    ensures
        line_views(lines@) == seq![Item::spec_to_string(child@) + " parents :"@] + spec_entries(
            item_views(parents@),
        ),
{
    let mut head = child.to_string();
    head.append(" parents :");
    let mut lines: Vec<String> = Vec::new();
    lines.push(head);
    let mut entries = list_lines(parents);
    let ghost first = lines@;
    let ghost rest = entries@;
    lines.append(&mut entries);
    assert(line_views(lines@) =~= line_views(first) + line_views(rest));
    assert(line_views(first) =~= seq![Item::spec_to_string(child@) + " parents :"@]);
    lines
}

/// An item of a report: `  - <item> : <quantity>`.
pub open spec fn spec_report_line(row: (ItemView, nat)) -> Seq<char> {
    spec_entry(row.0) + " : "@ + decimal_digits(row.1)
}

/// The lines that show a report: one for each item, in the order of the rows.
pub fn report_lines(report: &Report) -> (lines: Vec<String>)
    ensures
        lines@.len() == report.row_count(),
        forall|i: int|
            0 <= i < lines@.len() ==> (#[trigger] lines@[i])@ == spec_report_line(report.row(i)),
{
    let mut lines: Vec<String> = Vec::new();
    let mut cursor = report.iter();
    loop
        invariant_except_break
            cursor.report() == report,
            cursor.position() == lines@.len(),
            cursor.position() <= report.row_count(),
            forall|i: int|
                0 <= i < lines@.len() ==> (#[trigger] lines@[i])@ == spec_report_line(
                    report.row(i),
                ),
        ensures
            lines@.len() == report.row_count(),
            forall|i: int|
                0 <= i < lines@.len() ==> (#[trigger] lines@[i])@ == spec_report_line(
                    report.row(i),
                ),
        decreases report.row_count() - cursor.position(),
    {
        match cursor.next() {
            Some(row) => {
                let mut line = entry(row.item);
                line.append(" : ");
                let digits = count_text(row.quantity);
                line.append(digits.as_str());
                lines.push(line);
            },
            None => {
                break ;
            },
        }
    }
    lines
}

/// Two spaces for each level.
pub open spec fn indent(level: nat) -> Seq<char>
    decreases level,
{
    if level == 0 {
        Seq::empty()
    } else {
        indent((level - 1) as nat) + "  "@
    }
}

/// A child in a tree: `<indent>- <item> : quantity=<quantity>`.
pub open spec fn spec_tree_line(item: ItemView, quantity: nat, level: nat) -> Seq<char> {
    indent(level) + "- "@ + Item::spec_to_string(item) + " : quantity="@ + decimal_digits(quantity)
}

impl Tables {
    /// The lines of the tree under the given links: for each link the line of
    /// its child, followed by the tree under the child, one level deeper.
    pub open spec fn tree_over(self, rows: Seq<ChildLink>, level: nat, depth: nat) -> Seq<
        Seq<char>,
    >
        decreases depth, rows.len(),
    {
        if depth == 0 || rows.len() == 0 {
            Seq::empty()
        } else {
            let row = rows.last();
            self.tree_over(rows.drop_last(), level, depth) + seq![
                spec_tree_line(self.item(row.child_id as int), row.quantity as nat, level),
            ] + self.tree_over(
                Tables::links_from(self.links, row.child_id as int),
                level + 1,
                (depth - 1) as nat,
            )
        }
    }

    /// The lines of the tree under an item, down to `depth` levels.
    pub open spec fn tree_below(self, root: int, level: nat, depth: nat) -> Seq<Seq<char>> {
        self.tree_over(Tables::links_from(self.links, root), level, depth)
    }

    /// The lines that answer `tree`: the item, then the tree under it.
    pub open spec fn tree_of(self, root: int) -> Seq<Seq<char>> {
        seq![Item::spec_to_string(self.item(root))] + self.tree_below(root, 1, self.items.len())
    }
}

fn indent_text(level: u64) -> (text: String)
    ensures
        text@ == indent(level as nat),
{
    let mut text = String::new();
    let mut done: u64 = 0;
    assert(text@ =~= indent(0));
    while done < level
        invariant
            done <= level,
            text@ == indent(done as nat),
        decreases level - done,
    {
        text.append("  ");
        done += 1;
    }
    text
}

fn tree_line(item: &Item, quantity: usize, level: u64) -> (line: String)
    ensures
        line@ == spec_tree_line(item@, quantity as nat, level as nat),
{
    let mut line = indent_text(level);
    line.append("- ");
    let shown = item.to_string();
    line.append(shown.as_str());
    line.append(" : quantity=");
    let digits = count_text(quantity);
    line.append(digits.as_str());
    assert(line@ =~= spec_tree_line(item@, quantity as nat, level as nat));
    line
}

/// The lines of the tree under an item, down to `depth` levels; `None` where
/// a way down from the item has more links than that.
fn tree_under(db: &Database, root: i64, level: u64, depth: usize) -> (r: Option<Vec<String>>)
    requires
        db.wf(),
        level + depth <= u64::MAX,
    ensures
        match r {
            Some(lines) => !db@.deeper_than(root as int, depth as nat) && line_views(lines@)
                == db@.tree_below(root as int, level as nat, depth as nat),
            None => db@.deeper_than(root as int, depth as nat),
        },
    decreases depth,
{
    let ghost t = db@;
    let ghost rows = Tables::links_from(t.links, root as int);
    proof {
        db.lemma_wf_valid();
        lemma_links_from(t, root as int);
    }
    let kids = match db.children_of(root) {
        Ok(kids) => kids,
        Err(_) => {
            return None;
        },
    };
    assert(kids@.len() == rows.len()) by {
        assert(child_rows(kids@).len() == kids@.len());
    }
    let mut lines: Vec<String> = Vec::new();
    if kids.len() == 0 {
        proof {
            assert(!t.deeper_than(root as int, depth as nat)) by {
                if t.deeper_than(root as int, depth as nat) {
                    let path = choose|path: Seq<int>|
                        #[trigger] t.is_path(path) && path.len() > depth + 1 && path[0]
                            == root as int;
                    assert(t.has_link(path[0], path[0int + 1]));
                }
            }
            assert(line_views(lines@) =~= t.tree_below(root as int, level as nat, depth as nat));
        }
        return Some(lines);
    }
    if depth == 0 {
        proof {
            assert(t.has_link(root as int, rows[0].child_id as int));
            let path = seq![root as int, rows[0].child_id as int];
            assert(t.is_path(path));
        }
        return None;
    }
    let mut k: usize = 0;
    assert(line_views(lines@) =~= t.tree_over(rows.take(0), level as nat, depth as nat));
    while k < kids.len()
        invariant
            db.wf(),
            t == db@,
            t.valid(),
            depth > 0,
            level + depth <= u64::MAX,
            rows == Tables::links_from(t.links, root as int),
            kids@.len() == rows.len(),
            child_rows(kids@) == t.children_of(root as int),
            k <= kids@.len(),
            line_views(lines@) == t.tree_over(rows.take(k as int), level as nat, depth as nat),
            forall|j: int|
                0 <= j < k ==> !t.deeper_than((#[trigger] rows[j]).child_id as int, (depth - 1) as nat),
        decreases kids@.len() - k,
    {
        let kid = &kids[k];
        let ghost row = rows[k as int];
        let ghost c = row.child_id as int;
        proof {
            lemma_links_from(t, root as int);
            assert(t.links.contains(row));
            let i = choose|i: int| 0 <= i < t.links.len() && t.links[i] == row;
            assert(t.has_item(t.links[i].child_id as int));
            assert(child_rows(kids@)[k as int] == (t.items[row.child_id - 1], row.quantity as nat));
            assert(kid.0@ == t.item(c));
            assert(t.item(c).id == c);
            assert(rows.take(k + 1).drop_last() =~= rows.take(k as int));
            assert(rows.take(k + 1).last() == row);
        }
        let line = tree_line(&kid.0, kid.1, level);
        let mut below = match tree_under(db, kid.0.id(), level + 1, depth - 1) {
            Some(below) => below,
            None => {
                proof {
                    lemma_deeper_up(t, root as int, c, (depth - 1) as nat);
                }
                return None;
            },
        };
        let ghost before = lines@;
        let ghost under = below@;
        lines.push(line);
        lines.append(&mut below);
        proof {
            assert(line_views(lines@) =~= line_views(before) + seq![line@] + line_views(under));
        }
        k += 1;
    }
    proof {
        assert(rows.take(k as int) =~= rows);
        assert(!t.deeper_than(root as int, depth as nat)) by {
            if t.deeper_than(root as int, depth as nat) {
                lemma_deeper_down(t, root as int, (depth - 1) as nat);
                let child = choose|child: int| #[trigger]
                    t.has_link(root as int, child) && t.deeper_than(child, (depth - 1) as nat);
                let j = choose|j: int| 0 <= j < rows.len() && (#[trigger] rows[j]).child_id == child;
                assert(!t.deeper_than(rows[j].child_id as int, (depth - 1) as nat));
            }
        }
    }
    Some(lines)
}

/// The lines that answer `tree`: the item, then its children, each followed
/// by its own, indented by their level. An error where the item is not
/// stored; `None` where a way down from the item has more links than there
/// are items, as it has where the bill of materials holds a cycle.
pub fn tree_lines(store: &Store, id: i64) -> (r: Result<Option<Vec<String>>, crate::error::Error>)
    requires
        store.wf(),
    ensures
        match r {
            Ok(Some(lines)) => {
                &&& store@.has_item(id as int)
                &&& !store@.deeper_than(id as int, store@.items.len())
                &&& line_views(lines@) == store@.tree_of(id as int)
            },
            Ok(None) => store@.has_item(id as int) && store@.deeper_than(
                id as int,
                store@.items.len(),
            ),
            Err(e) => !store@.has_item(id as int) && e == crate::error::Error::NotFound,
        },
{
    let parent = match store.item(id) {
        Ok(parent) => parent,
        Err(e) => {
            return Err(e);
        },
    };
    let db = store.database();
    let depth = db.item_count();
    proof {
        store.lemma_wf_valid();
    }
    let mut lines: Vec<String> = Vec::new();
    lines.push(parent.to_string());
    let ghost first = lines@;
    match tree_under(db, id, 1, depth) {
        Some(mut below) => {
            let ghost under = below@;
            lines.append(&mut below);
            assert(line_views(lines@) =~= line_views(first) + line_views(under));
            assert(line_views(first) =~= seq![Item::spec_to_string(store@.item(id as int))]);
            Ok(Some(lines))
        },
        None => Ok(None),
    }
}

} // verus!
