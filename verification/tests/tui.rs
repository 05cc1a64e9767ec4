use pbs::tui::event::{Event, KeyCode, KeyEvent};
use pbs::tui::main_wnd::MainWindow;
use pbs::tui::page::{Page, PageSearch};
use pbs::tui::widget::{Prompt, PromptEvent};
use pbs::tui::{answer, answers, PbsAction, PbsResponse};
use pbs::{Database, Error, Item, ItemMaturity, StorageFault, Store, Strategy};

fn key(code: KeyCode) -> Event {
    Event::Key(KeyEvent { code, control: false, alt: false, pressed: true })
}

fn ctrl(c: char) -> Event {
    Event::Key(KeyEvent { code: KeyCode::Char(c), control: true, alt: false, pressed: true })
}

fn item(id: i64, name: &str) -> Item {
    Item::new(id, "PN", name, 1, ItemMaturity::InProgress, Strategy::Make)
}

#[test]
fn prompt_collects_what_is_typed() {
    let mut prompt = Prompt::default();
    prompt.set_label("> ");
    assert!(matches!(prompt.handle_event(&key(KeyCode::Char('a'))), Some(PromptEvent::Updated(t)) if t == "a"));
    assert!(matches!(prompt.handle_event(&key(KeyCode::Char('b'))), Some(PromptEvent::Updated(t)) if t == "ab"));
    assert_eq!("> ab", prompt.line());
    assert!(matches!(prompt.handle_event(&key(KeyCode::Backspace)), Some(PromptEvent::Updated(t)) if t == "a"));
    assert!(prompt.handle_event(&key(KeyCode::Up)).is_none());
    assert!(prompt.handle_event(&Event::Other).is_none());
    // keys with control or alt held, and keys released, are not typed
    assert!(prompt.handle_event(&ctrl('x')).is_none());
    let released = Event::Key(KeyEvent { code: KeyCode::Char('z'), control: false, alt: false, pressed: false });
    assert!(prompt.handle_event(&released).is_none());
    let alt = Event::Key(KeyEvent { code: KeyCode::Char('z'), control: false, alt: true, pressed: true });
    assert!(prompt.handle_event(&alt).is_none());
    assert!(matches!(prompt.handle_event(&key(KeyCode::Enter)), Some(PromptEvent::Entered(t)) if t == "a"));
    assert_eq!("> ", prompt.line());
    // backspace on an empty text leaves it empty
    assert!(matches!(prompt.handle_event(&key(KeyCode::Backspace)), Some(PromptEvent::Updated(t)) if t.is_empty()));
}

#[test]
fn search_page_moves_its_selection() {
    let mut page = PageSearch::default();
    assert!(page.handle_event(&key(KeyCode::Down)).is_none());
    assert_eq!(0, page.selected());
    page.set_items(vec![item(1, "A"), item(2, "B"), item(3, "C")]);
    assert_eq!(3, page.items().len());
    page.handle_event(&key(KeyCode::Down));
    page.handle_event(&key(KeyCode::Down));
    assert_eq!(2, page.selected());
    page.handle_event(&key(KeyCode::Down));
    assert_eq!(2, page.selected());
    page.handle_event(&key(KeyCode::Up));
    assert_eq!(1, page.selected());
    assert!(matches!(page.handle_event(&key(KeyCode::Enter)), Some(PbsAction::ViewItem(1))));
    page.set_items(vec![item(1, "A")]);
    assert_eq!(0, page.selected());
    page.handle_event(&key(KeyCode::Up));
    assert_eq!(0, page.selected());
}

#[test]
fn shortcuts_change_the_page() {
    let mut page = Page::home();
    assert!(matches!(page, Page::Help(_)));
    assert!(page.handle_event(&ctrl('s')).is_none());
    assert!(matches!(page, Page::Search(_)));
    assert!(page.handle_event(&ctrl('n')).is_none());
    assert!(matches!(page, Page::MakeItem(_)));
    assert!(page.handle_event(&ctrl('q')).is_none());
    assert!(matches!(page, Page::MakeItem(_)));
    assert!(page.handle_event(&ctrl('h')).is_none());
    assert!(matches!(page, Page::Help(_)));
    assert!(page.handle_event(&key(KeyCode::Char('s'))).is_none());
    assert!(matches!(page, Page::Help(_)));
}

#[test]
fn window_searches_once_three_bytes_are_typed() {
    let mut window = MainWindow::new();
    assert!(window.handle_event(&ctrl('s')).is_none());
    assert!(matches!(window.page(), Page::Search(_)));
    // the label is the one of the page that was shown when the event came
    assert_eq!("> ", window.prompt().line());
    assert!(window.handle_event(&key(KeyCode::Char('a'))).is_none());
    assert_eq!("search> a", window.prompt().line());
    assert!(window.handle_event(&key(KeyCode::Char('b'))).is_none());
    match window.handle_event(&key(KeyCode::Char('c'))) {
        Some(PbsAction::Search(text)) => assert_eq!("abc", text),
        _ => panic!("a search was expected"),
    }
    window.handle_response(PbsResponse::Items(vec![item(1, "A"), item(2, "B")]));
    match window.page() {
        Page::Search(page) => assert_eq!(2, page.items().len()),
        _ => panic!("the search page was expected"),
    }
    window.handle_response(PbsResponse::Error("broken".to_string()));
    assert_eq!("broken", window.status().text);
    // an item is reported on the page that creates items only
    window.handle_response(PbsResponse::Item(item(7, "BOLT")));
    assert_eq!("broken", window.status().text);
    // a multi-byte character counts by its bytes
    let mut window = MainWindow::new();
    window.handle_event(&ctrl('s'));
    match window.handle_event(&key(KeyCode::Char('€'))) {
        Some(PbsAction::Search(text)) => assert_eq!("€", text),
        _ => panic!("a search was expected"),
    }
}

#[test]
fn window_creates_what_is_entered() {
    let mut window = MainWindow::new();
    window.handle_event(&ctrl('n'));
    window.handle_event(&key(KeyCode::Char('N')));
    match window.handle_event(&key(KeyCode::Enter)) {
        Some(PbsAction::CreateItem(name)) => assert_eq!("N", name),
        _ => panic!("a creation was expected"),
    }
    assert_eq!("item name> ", window.prompt().line());
    window.handle_response(PbsResponse::Item(item(7, "BOLT")));
    assert_eq!(
        "[PN-001] \"BOLT\" - In progress... created",
        window.status().text
    );
    // found items are dropped where no search page is shown
    window.handle_response(PbsResponse::Items(vec![item(1, "A")]));
    assert!(matches!(window.page(), Page::MakeItem(_)));
    // entering on the help page asks for nothing
    let mut window = MainWindow::new();
    assert!(window.handle_event(&key(KeyCode::Enter)).is_none());
}

#[test]
fn the_catalog_answers_the_front_end() {
    let mut store = Store::open(Database::new()).unwrap();
    store.buy_item("00000002", "SQUATTER").unwrap();
    let create = |name: &str| PbsAction::CreateItem(name.to_string());
    assert!(answers(&store, &create("BOLT")));
    match answer(&mut store, create("BOLT")) {
        PbsResponse::Item(item) => {
            assert_eq!("00000001", item.pn());
            assert_eq!("BOLT", item.name());
        }
        _ => panic!("an item was expected"),
    }
    match answer(&mut store, create("NUT")) {
        PbsResponse::Error(words) => assert_eq!("StorageError(DuplicateItem)", words),
        _ => panic!("a failure was expected"),
    }
    match answer(&mut store, PbsAction::Search("bol".to_string())) {
        PbsResponse::Items(items) => {
            assert_eq!(1, items.len());
            assert_eq!("BOLT", items[0].name());
        }
        _ => panic!("items were expected"),
    }
    assert!(!answers(&store, &PbsAction::ViewItem(1)));
    assert!(answers(&store, &PbsAction::ViewItem(7)));
    match answer(&mut store, PbsAction::ViewItem(7)) {
        PbsResponse::Error(words) => assert_eq!("NotFound", words),
        _ => panic!("a failure was expected"),
    }
    store.write_config("simple_pn_provider", &usize::MAX.to_string()).unwrap();
    assert!(!answers(&store, &create("WASHER")));
}

#[test]
fn failures_in_words() {
    assert_eq!("CantAddChild", Error::CantAddChild.describe());
    assert_eq!("CantRemoveChild", Error::CantRemoveChild.describe());
    assert_eq!("CantReleaseItem", Error::CantReleaseItem.describe());
    assert_eq!("CantMakeObsolete", Error::CantMakeObsolete.describe());
    assert_eq!("DuplicatePartNumber", Error::DuplicatePartNumber.describe());
    assert_eq!("NotFound", Error::NotFound.describe());
    assert_eq!("LockUnavailable", Error::LockUnavailable.describe());
    assert_eq!("StorageError(Full)", Error::StorageError(StorageFault::Full).describe());
    assert_eq!(
        "StorageError(MissingLink)",
        Error::StorageError(StorageFault::MissingLink).describe()
    );
    for fault in [
        StorageFault::DuplicateItem,
        StorageFault::UnknownItem,
        StorageFault::DuplicateLink,
        StorageFault::MissingLink,
        StorageFault::Full,
        StorageFault::Inconsistent,
    ] {
        assert_eq!(format!("{fault:?}"), fault.name());
        assert_eq!(
            format!("{:?}", Error::StorageError(fault)),
            Error::StorageError(fault).describe()
        );
    }
}
