//! What the graphical front ends hold and say: the state of their forms and
//! the messages that report what the catalog answered.

use crate::database::{Item, ItemView};
use crate::text::{count_text, decimal_digits};
use vstd::prelude::*;

verus! {

/// The form that creates an item.
pub struct NewItem {
    pub cots: bool,
    pub pn: String,
    pub name: String,
}

/// The form that searches the catalog.
pub struct Search {
    pub pattern: String,
}

impl Default for Search {
    fn default() -> (search: Search)
        ensures
            search.pattern@ == Seq::<char>::empty(),
    {
        Search { pattern: String::new() }
    }
}

/// An item handed to a component that shows it.
pub struct ItemRefProps<'a> {
    pub item: &'a Item,
}

/// The pattern that finds the items whose part number or name holds the text
/// typed, anywhere: the text between two `%`.
pub open spec fn spec_search_pattern(typed: Seq<char>) -> Seq<char> {
    "%"@ + typed + "%"@
}

/// The pattern that finds the items whose part number or name holds the text
/// typed.
pub fn search_pattern(typed: &str) -> (pattern: String)
    ensures
        pattern@ == spec_search_pattern(typed@),
{
    let mut pattern = String::new();
    pattern.append("%");
    pattern.append(typed);
    pattern.append("%");
    assert(pattern@ =~= spec_search_pattern(typed@));
    pattern
}

/// What is said once a search has answered: `FOUND <count> items`.
pub fn found_message(count: usize) -> (message: String)
    ensures
        message@ == "FOUND "@ + decimal_digits(count as nat) + " items"@,
{
    let mut message = String::new();
    message.append("FOUND ");
    let digits = count_text(count);
    message.append(digits.as_str());
    message.append(" items");
    assert(message@ =~= "FOUND "@ + decimal_digits(count as nat) + " items"@);
    message
}

/// What is said once an item designed in house is created:
/// `Item MAKE [<pn>] created`.
pub fn made_message(item: &Item) -> (message: String)
    ensures
        message@ == "Item MAKE ["@ + item@.pn + "] created"@,
{
    let mut message = String::new();
    message.append("Item MAKE [");
    message.append(item.pn());
    message.append("] created");
    assert(message@ =~= "Item MAKE ["@ + item@.pn + "] created"@);
    message
}

/// What is said once a procured item is created.
pub fn bought_message() -> (message: &'static str)
    ensures
        message@ == "Item BUY created"@,
{
    "Item BUY created"
}

/// What is said once an item is added: `Add <name>, PN : <pn>`.
pub open spec fn spec_added_message(item: ItemView) -> Seq<char> {
    "Add "@ + item.name + ", PN : "@ + item.pn
}

/// What is said once an item is added.
pub fn added_message(item: &Item) -> (message: String)
    ensures
        message@ == spec_added_message(item@),
{
    let mut message = String::new();
    message.append("Add ");
    message.append(item.name());
    message.append(", PN : ");
    message.append(item.pn());
    assert(message@ =~= spec_added_message(item@));
    message
}

} // verus!
