//! The terminal front end: what it holds, how it answers the keyboard and
//! the catalog, and what it draws.

pub mod buffer;
pub mod event;
pub mod main_wnd;
pub mod page;
pub mod screen;
pub mod widget;

use crate::database::{item_views, Item, ItemMaturity, ItemView, Strategy, Tables};
use crate::store::Store;
use crate::ui::{search_pattern, spec_search_pattern};
use vstd::prelude::*;

verus! {

/// What the front end asks of the catalog.
pub enum PbsAction {
    Search(String),
    CreateItem(String),
    ViewItem(i64),
}

/// What the front end asks of the catalog, as plain values.
pub ghost enum ActionView {
    Search(Seq<char>),
    CreateItem(Seq<char>),
    ViewItem(int),
}

impl View for PbsAction {
    type V = ActionView;

    open spec fn view(&self) -> ActionView {
        match self {
            PbsAction::Search(pattern) => ActionView::Search(pattern@),
            PbsAction::CreateItem(name) => ActionView::CreateItem(name@),
            PbsAction::ViewItem(id) => ActionView::ViewItem(*id as int),
        }
    }
}

/// What the catalog answers.
pub enum PbsResponse {
    Error(String),
    Items(Vec<Item>),
    Item(Item),
}

/// What the catalog answers, as plain values.
pub ghost enum ResponseView {
    Error(Seq<char>),
    Items(Seq<ItemView>),
    Item(ItemView),
}

impl View for PbsResponse {
    type V = ResponseView;

    open spec fn view(&self) -> ResponseView {
        match self {
            PbsResponse::Error(err) => ResponseView::Error(err@),
            PbsResponse::Items(items) => ResponseView::Items(item_views(items@)),
            PbsResponse::Item(item) => ResponseView::Item(item@),
        }
    }
}

/// What an optional action is, as plain values.
pub open spec fn action_view(action: Option<PbsAction>) -> Option<ActionView> {
    match action {
        Some(action) => Some(action@),
        None => None,
    }
}

/// Whether the catalog can answer what the front end asks: an item can be
/// created while the counter of part numbers can count further, and an item
/// can be asked to be viewed while it is not stored, viewing a stored item
/// being left to come.
pub open spec fn can_answer(t: Tables, action: ActionView) -> bool {
    match action {
        ActionView::Search(_) => true,
        ActionView::CreateItem(_) => t.pn_counter_fits(),
        ActionView::ViewItem(id) => !t.has_item(id),
    }
}

/// Whether the catalog can answer what the front end asks.
pub fn answers(store: &Store, action: &PbsAction) -> (yes: bool)
    requires
        store.wf(),
    ensures
        yes == can_answer(store@, action@),
{
    match action {
        PbsAction::Search(_) => true,
        PbsAction::CreateItem(_) => store.can_allocate_pn(),
        PbsAction::ViewItem(id) => store.item(*id).is_err(),
    }
}

/// Answers what the front end asks. A search looks for the text typed
/// anywhere in the part number or in the name; a creation makes an item
/// designed in house; whatever fails is answered with the words of the
/// failure.
pub fn answer(store: &mut Store, action: PbsAction) -> (response: PbsResponse)
    requires
        old(store).wf(),
        can_answer(old(store)@, action@),
    ensures
        final(store).wf(),
        match action@ {
            ActionView::Search(typed) => {
                &&& final(store)@ == old(store)@
                &&& response@ matches ResponseView::Items(found)
                &&& old(store)@.is_search_result(spec_search_pattern(typed), found)
            },
            ActionView::CreateItem(name) => {
                let pn = old(store)@.next_pn();
                let counted = old(store)@.with_pn_allocated();
                match counted.insert_refusal(pn) {
                    None => {
                        &&& response@ == ResponseView::Item(
                            counted.new_item(pn, name, Strategy::Make, ItemMaturity::InProgress),
                        )
                        &&& final(store)@ == counted.with_item(
                            counted.new_item(pn, name, Strategy::Make, ItemMaturity::InProgress),
                        )
                    },
                    Some(e) => {
                        &&& response@ == ResponseView::Error(e.spec_describe())
                        &&& final(store)@ == counted
                    },
                }
            },
            ActionView::ViewItem(id) => {
                &&& final(store)@ == old(store)@
                &&& response@ == ResponseView::Error(crate::error::Error::NotFound.spec_describe())
            },
        },
{
    match action {
        PbsAction::Search(typed) => {
            let pattern = search_pattern(typed.as_str());
            match store.search_items(pattern.as_str()) {
                Ok(items) => PbsResponse::Items(items),
                Err(err) => PbsResponse::Error(err.describe()),
            }
        },
        PbsAction::CreateItem(name) => {
            match store.make_item(name.as_str()) {
                Ok(item) => PbsResponse::Item(item),
                Err(err) => PbsResponse::Error(err.describe()),
            }
        },
        PbsAction::ViewItem(id) => {
            match store.item(id) {
                Ok(_) => vstd::pervasive::unreached(),
                Err(err) => PbsResponse::Error(err.describe()),
            }
        },
    }
}

} // verus!
