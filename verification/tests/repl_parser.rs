use pbs::repl::{
    get_command, name, pn, ChildAddParams, ChildDelParams, Command, ItemBuyParams,
    ItemMakeParams, ItemReleaseParams, ItemUpgradeParams, ReportParams, TreeParams,
    WhereUsedParams,
};

#[test]
fn parser_test_pn() {
    assert_eq!(pn("PN"), Ok(("", "PN")));
    assert_eq!(pn("PN111"), Ok(("", "PN111")));
    assert_eq!(pn("PN111AA"), Ok(("", "PN111AA")));
    assert_eq!(pn("PN111-AA"), Ok(("", "PN111-AA")));
    assert_eq!(pn("PN111_AA"), Ok(("", "PN111_AA")));
    assert_eq!(pn("PN111.AA"), Ok(("", "PN111.AA")));
    assert_eq!(pn("PN111$AA"), Ok(("$AA", "PN111")));
}

#[test]
fn parser_test_name() {
    assert_eq!(name("NAME"), Ok(("", "NAME")));
    assert_eq!(name("\"NAME\""), Ok(("", "NAME")));
    assert_eq!(
        name("\"NAME WITH - _ CHARS\""),
        Ok(("", "NAME WITH - _ CHARS"))
    );
}

#[test]
fn parser_test_list_ok() {
    assert_eq!(Command::List, get_command("list").unwrap());
    assert_eq!(Command::List, get_command("  list").unwrap());
    assert_eq!(Command::List, get_command("  \tlist \t ").unwrap());
}

#[test]
fn parser_test_exit_ok() {
    assert_eq!(Command::Exit, get_command("exit").unwrap());
    assert_eq!(Command::Exit, get_command("  exit").unwrap());
    assert_eq!(Command::Exit, get_command("  exit  ").unwrap());
}

#[test]
fn parser_test_exit_err() {
    assert!(get_command("exi").is_err());
    assert!(get_command("exit4").is_err());
    assert!(get_command("exit 4").is_err());
}

#[test]
fn test_item_make() {
    let cmd = get_command("item make NAME").unwrap();
    assert_eq!(
        Command::ItemMake(ItemMakeParams {
            name: "NAME".to_string(),
        }),
        cmd
    );
}

#[test]
fn test_item_buy() {
    let cmd = get_command("item  buy  PN  NAME  ").unwrap();
    assert_eq!(
        Command::ItemBuy(ItemBuyParams {
            pn: "PN".to_string(),
            name: "NAME".to_string()
        }),
        cmd
    );
}

#[test]
fn parser_test_tree_ok() {
    let cmd = get_command("\t tree \t 481 \t  ").unwrap();
    assert_eq!(Command::Tree(TreeParams { id: 481 }), cmd);
}

#[test]
fn test_child_add() {
    let cmd = get_command("\t child add \t 1 \t   17\t  456 \t ").unwrap();
    assert_eq!(
        Command::ChildAdd(ChildAddParams {
            parent_id: 1,
            child_id: 17,
            quantity: 456
        }),
        cmd
    );
}

#[test]
fn test_child_del() {
    let cmd = get_command("\t child del \t 1 \t   17\t ").unwrap();
    assert_eq!(
        Command::ChildDel(ChildDelParams {
            parent_id: 1,
            child_id: 17,
        }),
        cmd
    );
}

#[test]
fn every_command_of_the_shell() {
    assert_eq!(Ok(Command::Help), get_command("help"));
    assert_eq!(Ok(Command::Help), get_command("help\r\n"));
    assert_eq!(
        Ok(Command::ItemRelease(ItemReleaseParams { id: 12 })),
        get_command("item release 12\n")
    );
    assert_eq!(
        Ok(Command::ItemUpgrade(ItemUpgradeParams { id: 0 })),
        get_command("item upgrade 0")
    );
    assert_eq!(
        Ok(Command::WhereUsed(WhereUsedParams { id: 3 })),
        get_command("where-used 3")
    );
    assert_eq!(Ok(Command::Report(ReportParams { id: 3 })), get_command("report 3"));
    assert_eq!(
        Ok(Command::ItemBuy(ItemBuyParams { pn: "EXT.1".to_string(), name: "A NAME".to_string() })),
        get_command("item buy EXT.1 \"A NAME\"")
    );
    assert_eq!(
        Ok(Command::ItemBuy(ItemBuyParams { pn: "P".to_string(), name: "".to_string() })),
        get_command("item buy P \"\"")
    );
    // the words of a command need no blank between them
    assert_eq!(
        Ok(Command::ItemMake(ItemMakeParams { name: "X".to_string() })),
        get_command("itemmake X")
    );
    // letters of any script make a name
    assert_eq!(
        Ok(Command::ItemMake(ItemMakeParams { name: "\u{e9}crou".to_string() })),
        get_command("item make \u{e9}crou")
    );
}

#[test]
fn lines_that_are_no_command() {
    for line in [
        "",
        "   ",
        "item",
        "item make",
        "item make A B",
        "item make \"A\"",
        "item buy P",
        "item buy P \"open",
        "item release x",
        "item release -1",
        "item release 9223372036854775808",
        "child add 1 2",
        "child add 1 2 3 4",
        "child del 1",
        "child 1 2",
        "tree",
        "tree1",
        "list 1",
        "LIST",
        "report3",
        "where-used",
        "\nlist",
    ] {
        assert!(get_command(line).is_err(), "{line:?}");
    }
    assert!(get_command("child add 1 2 18446744073709551615").is_ok());
    assert!(get_command("child add 1 2 18446744073709551616").is_err());
    assert!(get_command("item release 9223372036854775807").is_ok());
}
