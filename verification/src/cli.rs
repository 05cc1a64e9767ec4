//! The command language of the line-oriented client, which names items by
//! their part numbers.

use crate::grammar::{
    at_end, blanks_end, ends_at, keyword_at, name_param, name_param_at, or_else, quantity_param,
    quantity_param_at, read_keyword, skip_blanks, word_param, word_param_at, SyntaxError,
};
use crate::text::chars_of;
use vstd::prelude::*;

pub use crate::grammar::{name, pn};

verus! {

/// A command of the client.
#[derive(Debug, PartialEq, Eq)]
pub enum Command {
    Create(CreateParams),
    Add(AddParams),
    AddChild(AddChildParams),
    List,
    Tree(TreeParams),
    WhereUsed(WhereUsedParams),
    Stock(StockParams),
    Help,
    Exit,
}

/// A command of the client, as plain values.
pub ghost enum CommandView {
    Create { name: Seq<char> },
    Add { pn: Seq<char>, name: Seq<char> },
    AddChild { parent_pn: Seq<char>, child_pn: Seq<char>, quantity: nat },
    List,
    Tree { pn: Seq<char> },
    WhereUsed { pn: Seq<char> },
    Stock { pn: Seq<char> },
    Help,
    Exit,
}

impl View for Command {
    type V = CommandView;

    open spec fn view(&self) -> CommandView {
        match self {
            Command::Create(p) => CommandView::Create { name: p.name@ },
            Command::Add(p) => CommandView::Add { pn: p.pn@, name: p.name@ },
            Command::AddChild(p) => CommandView::AddChild {
                parent_pn: p.parent_pn@,
                child_pn: p.child_pn@,
                quantity: p.quantity as nat,
            },
            Command::List => CommandView::List,
            Command::Tree(p) => CommandView::Tree { pn: p.pn@ },
            Command::WhereUsed(p) => CommandView::WhereUsed { pn: p.pn@ },
            Command::Stock(p) => CommandView::Stock { pn: p.pn@ },
            Command::Help => CommandView::Help,
            Command::Exit => CommandView::Exit,
        }
    }
}

/// Parameters of `create`.
#[derive(Debug, PartialEq, Eq)]
pub struct CreateParams {
    pub name: String,
}

/// Parameters of `add`.
#[derive(Debug, PartialEq, Eq)]
pub struct AddParams {
    pub pn: String,
    pub name: String,
}

/// Parameters of `add-child`.
#[derive(Debug, PartialEq, Eq)]
pub struct AddChildParams {
    pub parent_pn: String,
    pub child_pn: String,
    pub quantity: usize,
}

/// Parameters of `tree`.
#[derive(Debug, PartialEq, Eq)]
pub struct TreeParams {
    pub pn: String,
}

/// Parameters of `where-used`.
#[derive(Debug, PartialEq, Eq)]
pub struct WhereUsedParams {
    pub pn: String,
}

/// Parameters of `stock`.
#[derive(Debug, PartialEq, Eq)]
pub struct StockParams {
    pub pn: String,
}

/// What a reading hands back, as plain values.
pub open spec fn reading(r: Option<(Command, usize)>) -> Option<(CommandView, int)> {
    match r {
        Some((command, end)) => Some((command@, end as int)),
        None => None,
    }
}

/// `create <name>`, where the name is written as a part number is.
pub open spec fn create_at(s: Seq<char>, from: int) -> Option<(CommandView, int)> {
    match keyword_at(s, from, "create"@) {
        Some(i) => match word_param_at(s, i) {
            Some((name, end)) => Some((CommandView::Create { name }, end)),
            None => None,
        },
        None => None,
    }
}

/// `add <pn> <name>`
pub open spec fn add_at(s: Seq<char>, from: int) -> Option<(CommandView, int)> {
    match keyword_at(s, from, "add"@) {
        Some(i) => match word_param_at(s, i) {
            Some((pn, j)) => match name_param_at(s, j) {
                Some((name, end)) => Some((CommandView::Add { pn, name }, end)),
                None => None,
            },
            None => None,
        },
        None => None,
    }
}

/// `add-child <parent-pn> <child-pn> <quantity>`
pub open spec fn add_child_at(s: Seq<char>, from: int) -> Option<(CommandView, int)> {
    match keyword_at(s, from, "add-child"@) {
        Some(i) => match word_param_at(s, i) {
            Some((parent_pn, j)) => match word_param_at(s, j) {
                Some((child_pn, k)) => match quantity_param_at(s, k) {
                    Some((quantity, end)) => Some(
                        (CommandView::AddChild { parent_pn, child_pn, quantity }, end),
                    ),
                    None => None,
                },
                None => None,
            },
            None => None,
        },
        None => None,
    }
}

/// A keyword that is a command by itself.
pub open spec fn bare_at(s: Seq<char>, from: int, keyword: Seq<char>, command: CommandView) -> Option<
    (CommandView, int),
> {
    match keyword_at(s, from, keyword) {
        Some(end) => Some((command, end)),
        None => None,
    }
}

/// `tree <pn>`
pub open spec fn tree_at(s: Seq<char>, from: int) -> Option<(CommandView, int)> {
    match keyword_at(s, from, "tree"@) {
        Some(i) => match word_param_at(s, i) {
            Some((pn, end)) => Some((CommandView::Tree { pn }, end)),
            None => None,
        },
        None => None,
    }
}

/// `where-used <pn>`
pub open spec fn where_used_at(s: Seq<char>, from: int) -> Option<(CommandView, int)> {
    match keyword_at(s, from, "where-used"@) {
        Some(i) => match word_param_at(s, i) {
            Some((pn, end)) => Some((CommandView::WhereUsed { pn }, end)),
            None => None,
        },
        None => None,
    }
}

/// `stock <pn>`
pub open spec fn stock_at(s: Seq<char>, from: int) -> Option<(CommandView, int)> {
    match keyword_at(s, from, "stock"@) {
        Some(i) => match word_param_at(s, i) {
            Some((pn, end)) => Some((CommandView::Stock { pn }, end)),
            None => None,
        },
        None => None,
    }
}

/// The command that stands at `from`: the first, in this order, of `create`,
/// `add`, `list`, `add-child`, `tree`, `help`, `exit`, `where-used` and
/// `stock` that can be read there.
pub open spec fn command_at(s: Seq<char>, from: int) -> Option<(CommandView, int)> {
    or_else(
        create_at(s, from),
        or_else(
            add_at(s, from),
            or_else(
                bare_at(s, from, "list"@, CommandView::List),
                or_else(
                    add_child_at(s, from),
                    or_else(
                        tree_at(s, from),
                        or_else(
                            bare_at(s, from, "help"@, CommandView::Help),
                            or_else(
                                bare_at(s, from, "exit"@, CommandView::Exit),
                                or_else(where_used_at(s, from), stock_at(s, from)),
                            ),
                        ),
                    ),
                ),
            ),
        ),
    )
}

/// The command that a line writes: blanks, a command, and nothing but white
/// space after it.
pub open spec fn command_of(s: Seq<char>) -> Option<CommandView> {
    match command_at(s, blanks_end(s, 0)) {
        Some((command, end)) => if ends_at(s, end) {
            Some(command)
        } else {
            None
        },
        None => None,
    }
}

fn cmd_create(chars: &Vec<char>, input: &str, from: usize) -> (r: Option<(Command, usize)>)
    requires
        chars@ == input@,
        from <= chars@.len(),
    ensures
        r matches Some((_, end)) ==> end <= chars@.len(),
        reading(r) == create_at(chars@, from as int),
{
    let i = read_keyword(chars, from, "create")?;
    let (name, end) = word_param(chars, input, i)?;
    Some((Command::Create(CreateParams { name }), end))
}

fn cmd_add(chars: &Vec<char>, input: &str, from: usize) -> (r: Option<(Command, usize)>)
    requires
        chars@ == input@,
        from <= chars@.len(),
    ensures
        r matches Some((_, end)) ==> end <= chars@.len(),
        reading(r) == add_at(chars@, from as int),
{
    let i = read_keyword(chars, from, "add")?;
    let (pn, j) = word_param(chars, input, i)?;
    let (name, end) = name_param(chars, input, j)?;
    Some((Command::Add(AddParams { pn, name }), end))
}

fn cmd_add_child(chars: &Vec<char>, input: &str, from: usize) -> (r: Option<(Command, usize)>)
    requires
        chars@ == input@,
        from <= chars@.len(),
    ensures
        r matches Some((_, end)) ==> end <= chars@.len(),
        reading(r) == add_child_at(chars@, from as int),
{
    let i = read_keyword(chars, from, "add-child")?;
    let (parent_pn, j) = word_param(chars, input, i)?;
    let (child_pn, k) = word_param(chars, input, j)?;
    let (quantity, end) = quantity_param(chars, k)?;
    Some((Command::AddChild(AddChildParams { parent_pn, child_pn, quantity }), end))
}

fn cmd_list(chars: &Vec<char>, from: usize) -> (r: Option<(Command, usize)>)
    requires
        from <= chars@.len(),
    ensures
        r matches Some((_, end)) ==> end <= chars@.len(),
        reading(r) == bare_at(chars@, from as int, "list"@, CommandView::List),
{
    let end = read_keyword(chars, from, "list")?;
    Some((Command::List, end))
}

fn cmd_exit(chars: &Vec<char>, from: usize) -> (r: Option<(Command, usize)>)
    requires
        from <= chars@.len(),
    ensures
        r matches Some((_, end)) ==> end <= chars@.len(),
        reading(r) == bare_at(chars@, from as int, "exit"@, CommandView::Exit),
{
    let end = read_keyword(chars, from, "exit")?;
    Some((Command::Exit, end))
}

fn cmd_help(chars: &Vec<char>, from: usize) -> (r: Option<(Command, usize)>)
    requires
        from <= chars@.len(),
    ensures
        r matches Some((_, end)) ==> end <= chars@.len(),
        reading(r) == bare_at(chars@, from as int, "help"@, CommandView::Help),
{
    let end = read_keyword(chars, from, "help")?;
    Some((Command::Help, end))
}

fn cmd_tree(chars: &Vec<char>, input: &str, from: usize) -> (r: Option<(Command, usize)>)
    requires
        chars@ == input@,
        from <= chars@.len(),
    ensures
        r matches Some((_, end)) ==> end <= chars@.len(),
        reading(r) == tree_at(chars@, from as int),
{
    let i = read_keyword(chars, from, "tree")?;
    let (pn, end) = word_param(chars, input, i)?;
    Some((Command::Tree(TreeParams { pn }), end))
}

fn cmd_where_used(chars: &Vec<char>, input: &str, from: usize) -> (r: Option<(Command, usize)>)
    requires
        chars@ == input@,
        from <= chars@.len(),
    ensures
        r matches Some((_, end)) ==> end <= chars@.len(),
        reading(r) == where_used_at(chars@, from as int),
{
    let i = read_keyword(chars, from, "where-used")?;
    let (pn, end) = word_param(chars, input, i)?;
    Some((Command::WhereUsed(WhereUsedParams { pn }), end))
}

fn cmd_stock(chars: &Vec<char>, input: &str, from: usize) -> (r: Option<(Command, usize)>)
    requires
        chars@ == input@,
        from <= chars@.len(),
    ensures
        r matches Some((_, end)) ==> end <= chars@.len(),
        reading(r) == stock_at(chars@, from as int),
{
    let i = read_keyword(chars, from, "stock")?;
    let (pn, end) = word_param(chars, input, i)?;
    Some((Command::Stock(StockParams { pn }), end))
}

fn any_command(chars: &Vec<char>, input: &str, from: usize) -> (r: Option<(Command, usize)>)
    requires
        chars@ == input@,
        from <= chars@.len(),
    ensures
        r matches Some((_, end)) ==> end <= chars@.len(),
        reading(r) == command_at(chars@, from as int),
{
    let create = cmd_create(chars, input, from);
    if create.is_some() {
        return create;
    }
    let add = cmd_add(chars, input, from);
    if add.is_some() {
        return add;
    }
    let list = cmd_list(chars, from);
    if list.is_some() {
        return list;
    }
    let add_child = cmd_add_child(chars, input, from);
    if add_child.is_some() {
        return add_child;
    }
    let tree = cmd_tree(chars, input, from);
    if tree.is_some() {
        return tree;
    }
    let help = cmd_help(chars, from);
    if help.is_some() {
        return help;
    }
    let exit = cmd_exit(chars, from);
    if exit.is_some() {
        return exit;
    }
    let where_used = cmd_where_used(chars, input, from);
    if where_used.is_some() {
        return where_used;
    }
    cmd_stock(chars, input, from)
}

/// Reads the command that a line writes.
pub fn get_command(input: &str) -> (r: Result<Command, SyntaxError>)
    ensures
        match r {
            Ok(command) => command_of(input@) == Some(command@),
            Err(_) => command_of(input@) is None,
        },
{
    let chars = chars_of(input);
    let start = skip_blanks(&chars, 0);
    match any_command(&chars, input, start) {
        Some((command, end)) => {
            if at_end(&chars, end) {
                Ok(command)
            } else {
                Err(SyntaxError {  })
            }
        },
        None => Err(SyntaxError {  }),
    }
}

} // verus!
