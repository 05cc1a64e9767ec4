//! The command language of the interactive shell.

use crate::grammar::{
    at_end, blanks_end, command_word, command_word_at, ends_at, id_param, id_param_at,
    keyword_at, name_param, name_param_at, or_else, quantity_param, quantity_param_at,
    read_keyword, skip_blanks, word_param, word_param_at, SyntaxError,
};
use crate::text::chars_of;
use vstd::prelude::*;

pub use crate::grammar::{name, pn};

verus! {

/// A command of the shell.
#[derive(Debug, PartialEq, Eq)]
pub enum Command {
    ItemMake(ItemMakeParams),
    ItemBuy(ItemBuyParams),
    ItemRelease(ItemReleaseParams),
    ItemUpgrade(ItemUpgradeParams),
    ChildAdd(ChildAddParams),
    ChildDel(ChildDelParams),
    List,
    Tree(TreeParams),
    WhereUsed(WhereUsedParams),
    Report(ReportParams),
    Help,
    Exit,
}

/// A command of the shell, as plain values.
pub ghost enum CommandView {
    ItemMake { name: Seq<char> },
    ItemBuy { pn: Seq<char>, name: Seq<char> },
    ItemRelease { id: int },
    ItemUpgrade { id: int },
    ChildAdd { parent_id: int, child_id: int, quantity: nat },
    ChildDel { parent_id: int, child_id: int },
    List,
    Tree { id: int },
    WhereUsed { id: int },
    Report { id: int },
    Help,
    Exit,
}

impl View for Command {
    type V = CommandView;

    open spec fn view(&self) -> CommandView {
        match self {
            Command::ItemMake(p) => CommandView::ItemMake { name: p.name@ },
            Command::ItemBuy(p) => CommandView::ItemBuy { pn: p.pn@, name: p.name@ },
            Command::ItemRelease(p) => CommandView::ItemRelease { id: p.id as int },
            Command::ItemUpgrade(p) => CommandView::ItemUpgrade { id: p.id as int },
            Command::ChildAdd(p) => CommandView::ChildAdd {
                parent_id: p.parent_id as int,
                child_id: p.child_id as int,
                quantity: p.quantity as nat,
            },
            Command::ChildDel(p) => CommandView::ChildDel {
                parent_id: p.parent_id as int,
                child_id: p.child_id as int,
            },
            Command::List => CommandView::List,
            Command::Tree(p) => CommandView::Tree { id: p.id as int },
            Command::WhereUsed(p) => CommandView::WhereUsed { id: p.id as int },
            Command::Report(p) => CommandView::Report { id: p.id as int },
            Command::Help => CommandView::Help,
            Command::Exit => CommandView::Exit,
        }
    }
}

/// A single identifier as the parameter of a command.
pub struct SingleIdParams {
    pub id: i64,
}

/// Parameters of `item make`.
#[derive(Debug, PartialEq, Eq)]
pub struct ItemMakeParams {
    pub name: String,
}

/// Parameters of `item buy`.
#[derive(Debug, PartialEq, Eq)]
pub struct ItemBuyParams {
    pub pn: String,
    pub name: String,
}

/// Parameters of `item release`.
#[derive(Debug, PartialEq, Eq)]
pub struct ItemReleaseParams {
    pub id: i64,
}

/// Parameters of `item upgrade`.
#[derive(Debug, PartialEq, Eq)]
pub struct ItemUpgradeParams {
    pub id: i64,
}

/// Parameters of `child add`.
#[derive(Debug, PartialEq, Eq)]
pub struct ChildAddParams {
    pub parent_id: i64,
    pub child_id: i64,
    pub quantity: usize,
}

/// Parameters of `child del`.
#[derive(Debug, PartialEq, Eq)]
pub struct ChildDelParams {
    pub parent_id: i64,
    pub child_id: i64,
}

/// Parameters of `tree`.
#[derive(Debug, PartialEq, Eq)]
pub struct TreeParams {
    pub id: i64,
}

/// Parameters of `where-used`.
#[derive(Debug, PartialEq, Eq)]
pub struct WhereUsedParams {
    pub id: i64,
}

/// Parameters of `report`.
#[derive(Debug, PartialEq, Eq)]
pub struct ReportParams {
    pub id: i64,
}

/// What a reading hands back, as plain values.
pub open spec fn reading(r: Option<(Command, usize)>) -> Option<(CommandView, int)> {
    match r {
        Some((command, end)) => Some((command@, end as int)),
        None => None,
    }
}

/// `make <name>`, where the name is written as a part number is.
pub open spec fn item_make_at(s: Seq<char>, from: int) -> Option<(CommandView, int)> {
    match command_word_at(s, from, "make"@) {
        Some(i) => match word_param_at(s, i) {
            Some((name, end)) => Some((CommandView::ItemMake { name }, end)),
            None => None,
        },
        None => None,
    }
}

/// `buy <pn> <name>`
pub open spec fn item_buy_at(s: Seq<char>, from: int) -> Option<(CommandView, int)> {
    match command_word_at(s, from, "buy"@) {
        Some(i) => match word_param_at(s, i) {
            Some((pn, j)) => match name_param_at(s, j) {
                Some((name, end)) => Some((CommandView::ItemBuy { pn, name }, end)),
                None => None,
            },
            None => None,
        },
        None => None,
    }
}

/// `release <id>`
pub open spec fn item_release_at(s: Seq<char>, from: int) -> Option<(CommandView, int)> {
    match command_word_at(s, from, "release"@) {
        Some(i) => match id_param_at(s, i) {
            Some((id, end)) => Some((CommandView::ItemRelease { id: id as int }, end)),
            None => None,
        },
        None => None,
    }
}

/// `upgrade <id>`
pub open spec fn item_upgrade_at(s: Seq<char>, from: int) -> Option<(CommandView, int)> {
    match command_word_at(s, from, "upgrade"@) {
        Some(i) => match id_param_at(s, i) {
            Some((id, end)) => Some((CommandView::ItemUpgrade { id: id as int }, end)),
            None => None,
        },
        None => None,
    }
}

/// `item` and one of `make`, `buy`, `release` and `upgrade`.
pub open spec fn item_at(s: Seq<char>, from: int) -> Option<(CommandView, int)> {
    match command_word_at(s, from, "item"@) {
        Some(i) => or_else(
            item_make_at(s, i),
            or_else(item_buy_at(s, i), or_else(item_release_at(s, i), item_upgrade_at(s, i))),
        ),
        None => None,
    }
}

/// `add <parent-id> <child-id> <quantity>`
pub open spec fn child_add_at(s: Seq<char>, from: int) -> Option<(CommandView, int)> {
    match command_word_at(s, from, "add"@) {
        Some(i) => match id_param_at(s, i) {
            Some((parent_id, j)) => match id_param_at(s, j) {
                Some((child_id, k)) => match quantity_param_at(s, k) {
                    Some((quantity, end)) => Some(
                        (
                            CommandView::ChildAdd {
                                parent_id: parent_id as int,
                                child_id: child_id as int,
                                quantity,
                            },
                            end,
                        ),
                    ),
                    None => None,
                },
                None => None,
            },
            None => None,
        },
        None => None,
    }
}

/// `del <parent-id> <child-id>`
pub open spec fn child_del_at(s: Seq<char>, from: int) -> Option<(CommandView, int)> {
    match command_word_at(s, from, "del"@) {
        Some(i) => match id_param_at(s, i) {
            Some((parent_id, j)) => match id_param_at(s, j) {
                Some((child_id, end)) => Some(
                    (
                        CommandView::ChildDel {
                            parent_id: parent_id as int,
                            child_id: child_id as int,
                        },
                        end,
                    ),
                ),
                None => None,
            },
            None => None,
        },
        None => None,
    }
}

/// `child` and one of `add` and `del`.
pub open spec fn child_at(s: Seq<char>, from: int) -> Option<(CommandView, int)> {
    match command_word_at(s, from, "child"@) {
        Some(i) => or_else(child_add_at(s, i), child_del_at(s, i)),
        None => None,
    }
}

/// A keyword that is a command by itself.
pub open spec fn bare_at(s: Seq<char>, from: int, keyword: Seq<char>, command: CommandView) -> Option<
    (CommandView, int),
> {
    match keyword_at(s, from, keyword) {
        Some(end) => Some((command, end)),
        None => None,
    }
}

/// `tree <id>`
pub open spec fn tree_at(s: Seq<char>, from: int) -> Option<(CommandView, int)> {
    match command_word_at(s, from, "tree"@) {
        Some(i) => match id_param_at(s, i) {
            Some((id, end)) => Some((CommandView::Tree { id: id as int }, end)),
            None => None,
        },
        None => None,
    }
}

/// `where-used <id>`
pub open spec fn where_used_at(s: Seq<char>, from: int) -> Option<(CommandView, int)> {
    match command_word_at(s, from, "where-used"@) {
        Some(i) => match id_param_at(s, i) {
            Some((id, end)) => Some((CommandView::WhereUsed { id: id as int }, end)),
            None => None,
        },
        None => None,
    }
}

/// `report <id>`
pub open spec fn report_at(s: Seq<char>, from: int) -> Option<(CommandView, int)> {
    match keyword_at(s, from, "report"@) {
        Some(i) => match id_param_at(s, i) {
            Some((id, end)) => Some((CommandView::Report { id: id as int }, end)),
            None => None,
        },
        None => None,
    }
}

/// The command that stands at `from`: the first, in this order, of `item`,
/// `list`, `child`, `tree`, `help`, `exit`, `where-used` and `report` that
/// can be read there.
pub open spec fn command_at(s: Seq<char>, from: int) -> Option<(CommandView, int)> {
    or_else(
        item_at(s, from),
        or_else(
            bare_at(s, from, "list"@, CommandView::List),
            or_else(
                child_at(s, from),
                or_else(
                    tree_at(s, from),
                    or_else(
                        bare_at(s, from, "help"@, CommandView::Help),
                        or_else(
                            bare_at(s, from, "exit"@, CommandView::Exit),
                            or_else(where_used_at(s, from), report_at(s, from)),
                        ),
                    ),
                ),
            ),
        ),
    )
}

/// The command that a line writes: blanks, a command, and nothing but white
/// space after it.
pub open spec fn command_of(s: Seq<char>) -> Option<CommandView> {
    match command_at(s, blanks_end(s, 0)) {
        Some((command, end)) => if ends_at(s, end) {
            Some(command)
        } else {
            None
        },
        None => None,
    }
}

fn cmd_item_make(chars: &Vec<char>, input: &str, from: usize) -> (r: Option<(Command, usize)>)
    requires
        chars@ == input@,
        from <= chars@.len(),
    ensures
        r matches Some((_, end)) ==> end <= chars@.len(),
        reading(r) == item_make_at(chars@, from as int),
{
    let i = command_word(chars, from, "make")?;
    let (name, end) = word_param(chars, input, i)?;
    Some((Command::ItemMake(ItemMakeParams { name }), end))
}

fn cmd_item_buy(chars: &Vec<char>, input: &str, from: usize) -> (r: Option<(Command, usize)>)
    requires
        chars@ == input@,
        from <= chars@.len(),
    ensures
        r matches Some((_, end)) ==> end <= chars@.len(),
        reading(r) == item_buy_at(chars@, from as int),
{
    let i = command_word(chars, from, "buy")?;
    let (pn, j) = word_param(chars, input, i)?;
    let (name, end) = name_param(chars, input, j)?;
    Some((Command::ItemBuy(ItemBuyParams { pn, name }), end))
}

fn cmd_item_release(chars: &Vec<char>, from: usize) -> (r: Option<(Command, usize)>)
    requires
        from <= chars@.len(),
    ensures
        r matches Some((_, end)) ==> end <= chars@.len(),
        reading(r) == item_release_at(chars@, from as int),
{
    let i = command_word(chars, from, "release")?;
    let (id, end) = id_param(chars, i)?;
    Some((Command::ItemRelease(ItemReleaseParams { id }), end))
}

fn cmd_item_upgrade(chars: &Vec<char>, from: usize) -> (r: Option<(Command, usize)>)
    requires
        from <= chars@.len(),
    ensures
        r matches Some((_, end)) ==> end <= chars@.len(),
        reading(r) == item_upgrade_at(chars@, from as int),
{
    let i = command_word(chars, from, "upgrade")?;
    let (id, end) = id_param(chars, i)?;
    Some((Command::ItemUpgrade(ItemUpgradeParams { id }), end))
}

fn cmd_item(chars: &Vec<char>, input: &str, from: usize) -> (r: Option<(Command, usize)>)
    requires
        chars@ == input@,
        from <= chars@.len(),
    ensures
        r matches Some((_, end)) ==> end <= chars@.len(),
        reading(r) == item_at(chars@, from as int),
{
    let i = command_word(chars, from, "item")?;
    let made = cmd_item_make(chars, input, i);
    if made.is_some() {
        return made;
    }
    let bought = cmd_item_buy(chars, input, i);
    if bought.is_some() {
        return bought;
    }
    let released = cmd_item_release(chars, i);
    if released.is_some() {
        return released;
    }
    cmd_item_upgrade(chars, i)
}

fn cmd_child_add(chars: &Vec<char>, from: usize) -> (r: Option<(Command, usize)>)
    requires
        from <= chars@.len(),
    ensures
        r matches Some((_, end)) ==> end <= chars@.len(),
        reading(r) == child_add_at(chars@, from as int),
{
    let i = command_word(chars, from, "add")?;
    let (parent_id, j) = id_param(chars, i)?;
    let (child_id, k) = id_param(chars, j)?;
    let (quantity, end) = quantity_param(chars, k)?;
    Some((Command::ChildAdd(ChildAddParams { parent_id, child_id, quantity }), end))
}

fn cmd_child_del(chars: &Vec<char>, from: usize) -> (r: Option<(Command, usize)>)
    requires
        from <= chars@.len(),
    ensures
        r matches Some((_, end)) ==> end <= chars@.len(),
        reading(r) == child_del_at(chars@, from as int),
{
    let i = command_word(chars, from, "del")?;
    let (parent_id, j) = id_param(chars, i)?;
    let (child_id, end) = id_param(chars, j)?;
    Some((Command::ChildDel(ChildDelParams { parent_id, child_id }), end))
}

fn cmd_child(chars: &Vec<char>, from: usize) -> (r: Option<(Command, usize)>)
    requires
        from <= chars@.len(),
    ensures
        r matches Some((_, end)) ==> end <= chars@.len(),
        reading(r) == child_at(chars@, from as int),
{
    let i = command_word(chars, from, "child")?;
    let added = cmd_child_add(chars, i);
    if added.is_some() {
        return added;
    }
    cmd_child_del(chars, i)
}

fn cmd_list(chars: &Vec<char>, from: usize) -> (r: Option<(Command, usize)>)
    requires
        from <= chars@.len(),
    ensures
        r matches Some((_, end)) ==> end <= chars@.len(),
        reading(r) == bare_at(chars@, from as int, "list"@, CommandView::List),
{
    let end = read_keyword(chars, from, "list")?;
    Some((Command::List, end))
}

fn cmd_exit(chars: &Vec<char>, from: usize) -> (r: Option<(Command, usize)>)
    requires
        from <= chars@.len(),
    ensures
        r matches Some((_, end)) ==> end <= chars@.len(),
        reading(r) == bare_at(chars@, from as int, "exit"@, CommandView::Exit),
{
    let end = read_keyword(chars, from, "exit")?;
    Some((Command::Exit, end))
}

fn cmd_help(chars: &Vec<char>, from: usize) -> (r: Option<(Command, usize)>)
    requires
        from <= chars@.len(),
    ensures
        r matches Some((_, end)) ==> end <= chars@.len(),
        reading(r) == bare_at(chars@, from as int, "help"@, CommandView::Help),
{
    let end = read_keyword(chars, from, "help")?;
    Some((Command::Help, end))
}

fn cmd_tree(chars: &Vec<char>, from: usize) -> (r: Option<(Command, usize)>)
    requires
        from <= chars@.len(),
    ensures
        r matches Some((_, end)) ==> end <= chars@.len(),
        reading(r) == tree_at(chars@, from as int),
{
    let i = command_word(chars, from, "tree")?;
    let (id, end) = id_param(chars, i)?;
    Some((Command::Tree(TreeParams { id }), end))
}

fn cmd_where_used(chars: &Vec<char>, from: usize) -> (r: Option<(Command, usize)>)
    requires
        from <= chars@.len(),
    ensures
        r matches Some((_, end)) ==> end <= chars@.len(),
        reading(r) == where_used_at(chars@, from as int),
{
    let i = command_word(chars, from, "where-used")?;
    let (id, end) = id_param(chars, i)?;
    Some((Command::WhereUsed(WhereUsedParams { id }), end))
}

fn cmd_report(chars: &Vec<char>, from: usize) -> (r: Option<(Command, usize)>)
    requires
        from <= chars@.len(),
    ensures
        r matches Some((_, end)) ==> end <= chars@.len(),
        reading(r) == report_at(chars@, from as int),
{
    let i = read_keyword(chars, from, "report")?;
    let (id, end) = id_param(chars, i)?;
    Some((Command::Report(ReportParams { id }), end))
}

fn any_command(chars: &Vec<char>, input: &str, from: usize) -> (r: Option<(Command, usize)>)
    requires
        chars@ == input@,
        from <= chars@.len(),
    ensures
        r matches Some((_, end)) ==> end <= chars@.len(),
        reading(r) == command_at(chars@, from as int),
{
    let item = cmd_item(chars, input, from);
    if item.is_some() {
        return item;
    }
    let list = cmd_list(chars, from);
    if list.is_some() {
        return list;
    }
    let child = cmd_child(chars, from);
    if child.is_some() {
        return child;
    }
    let tree = cmd_tree(chars, from);
    if tree.is_some() {
        return tree;
    }
    let help = cmd_help(chars, from);
    if help.is_some() {
        return help;
    }
    let exit = cmd_exit(chars, from);
    if exit.is_some() {
        return exit;
    }
    let where_used = cmd_where_used(chars, from);
    if where_used.is_some() {
        return where_used;
    }
    cmd_report(chars, from)
}

/// Reads the command that a line writes.
pub fn get_command(input: &str) -> (r: Result<Command, SyntaxError>)
    ensures
        match r {
            Ok(command) => command_of(input@) == Some(command@),
            Err(_) => command_of(input@) is None,
        },
{
    let chars = chars_of(input);
    let start = skip_blanks(&chars, 0);
    match any_command(&chars, input, start) {
        Some((command, end)) => {
            if at_end(&chars, end) {
                Ok(command)
            } else {
                Err(SyntaxError {  })
            }
        },
        None => Err(SyntaxError {  }),
    }
}

} // verus!
