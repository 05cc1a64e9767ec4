use pbs::api::{
    add_child_url, child_url, children_url, item_buy_url, item_make_url, item_url, release_url,
    report_url, search_url, BASE_API_URL,
};
use pbs::cmdline::{parse_cmd_line, CmdLineError, Commands};
use pbs::ui::{added_message, bought_message, found_message, made_message, search_pattern};
use pbs::{Item, ItemMaturity, Strategy};

fn args(words: &[&str]) -> Vec<String> {
    words.iter().map(|w| w.to_string()).collect()
}

#[test]
fn command_line() {
    assert!(matches!(parse_cmd_line(&args(&[])), Err(CmdLineError::MissingCommand)));
    assert!(matches!(parse_cmd_line(&args(&["pbs"])), Err(CmdLineError::MissingCommand)));
    assert!(matches!(parse_cmd_line(&args(&["pbs", "-h"])), Ok(Commands::Usage)));
    assert!(matches!(parse_cmd_line(&args(&["pbs", "--help", "x"])), Ok(Commands::Usage)));
    match parse_cmd_line(&args(&["pbs", "list"])) {
        Err(CmdLineError::UnknownCommand(word)) => assert_eq!("list", word),
        _ => panic!("an unknown command was expected"),
    }
    match parse_cmd_line(&args(&["pbs", "add", "PN"])) {
        Err(CmdLineError::MissingParams(Commands::Add(params))) => {
            assert_eq!("", params.pn);
            assert_eq!("", params.name);
        }
        _ => panic!("missing parameters were expected"),
    }
    match parse_cmd_line(&args(&["pbs", "add", "PN", "NAME", "more"])) {
        Ok(Commands::Add(params)) => {
            assert_eq!("PN", params.pn);
            assert_eq!("NAME", params.name);
        }
        _ => panic!("an addition was expected"),
    }
}

#[test]
fn addresses() {
    assert_eq!("http://localhost:3030", BASE_API_URL);
    assert_eq!("b/search?pattern=%25003%25", search_url("b", "%003%"));
    assert_eq!(
        "b/search?pattern=a-b_c.d~e%20f%2Fg%C3%A9",
        search_url("b", "a-b_c.d~e f/g\u{e9}")
    );
    assert_eq!("b/search?pattern=", search_url("b", ""));
    assert_eq!("b/item/make", item_make_url("b"));
    assert_eq!("b/item/buy", item_buy_url("b"));
    assert_eq!("b/item/17", item_url("b", 17));
    assert_eq!("b/item/0", item_url("b", 0));
    assert_eq!("b/item/-9223372036854775808", item_url("b", i64::MIN));
    assert_eq!("b/item/9223372036854775807", item_url("b", i64::MAX));
    assert_eq!("b/item/3/children", children_url("b", 3));
    assert_eq!("b/item/3/child", add_child_url("b", 3));
    assert_eq!("b/item/3/child/44", child_url("b", 3, 44));
    assert_eq!("b/item/3/release", release_url("b", 3));
    assert_eq!("b/item/3/report", report_url("b", 3));
}

#[test]
fn failed_answers() {
    assert_eq!(500, pbs::api::Error::StoreError.status());
    assert_eq!("STORE ERROR", pbs::api::Error::StoreError.message());
    assert_eq!(500, pbs::api::Error::StateError.status());
    assert_eq!("STATE ERROR", pbs::api::Error::StateError.message());
}

#[test]
fn messages() {
    let item = Item::new(1, "00000001", "BOLT", 1, ItemMaturity::InProgress, Strategy::Make);
    assert_eq!("%bolt%", search_pattern("bolt"));
    assert_eq!("%%", search_pattern(""));
    assert_eq!("FOUND 0 items", found_message(0));
    assert_eq!("FOUND 120 items", found_message(120));
    assert_eq!("Item MAKE [00000001] created", made_message(&item));
    assert_eq!("Item BUY created", bought_message());
    assert_eq!("Add BOLT, PN : 00000001", added_message(&item));
}
