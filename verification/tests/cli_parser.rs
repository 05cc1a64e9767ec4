use pbs::cli::{
    get_command, name, pn, AddChildParams, AddParams, Command, CreateParams, StockParams,
    TreeParams, WhereUsedParams,
};

#[test]
fn test_pn() {
    assert_eq!(pn("PN"), Ok(("", "PN")));
    assert_eq!(pn("PN111"), Ok(("", "PN111")));
    assert_eq!(pn("PN111AA"), Ok(("", "PN111AA")));
    assert_eq!(pn("PN111-AA"), Ok(("", "PN111-AA")));
    assert_eq!(pn("PN111_AA"), Ok(("", "PN111_AA")));
    assert_eq!(pn("PN111.AA"), Ok(("", "PN111.AA")));
    assert_eq!(pn("PN111$AA"), Ok(("$AA", "PN111")));
}

#[test]
fn test_name() {
    assert_eq!(name("NAME"), Ok(("", "NAME")));
    assert_eq!(name("\"NAME\""), Ok(("", "NAME")));
    assert_eq!(
        name("\"NAME WITH - _ CHARS\""),
        Ok(("", "NAME WITH - _ CHARS"))
    );
}

#[test]
fn test_list_ok() {
    assert_eq!(Command::List, get_command("list").unwrap());
    assert_eq!(Command::List, get_command("  list").unwrap());
    assert_eq!(Command::List, get_command("  \tlist \t ").unwrap());
}

#[test]
fn test_exit_ok() {
    assert_eq!(Command::Exit, get_command("exit").unwrap());
    assert_eq!(Command::Exit, get_command("  exit").unwrap());
    assert_eq!(Command::Exit, get_command("  exit  ").unwrap());
}

#[test]
fn test_exit_err() {
    assert!(get_command("exi").is_err());
    assert!(get_command("exit4").is_err());
    assert!(get_command("exit 4").is_err());
}

#[test]
fn test_add_ok() {
    let cmd = get_command("\t add \t PN \t   NAME  ").unwrap();
    assert_eq!(
        Command::Add(AddParams {
            pn: "PN".to_string(),
            name: "NAME".to_string()
        }),
        cmd
    );
}

#[test]
fn test_tree_ok() {
    let cmd = get_command("\t tree \t PN \t  ").unwrap();
    assert_eq!(
        Command::Tree(TreeParams {
            pn: "PN".to_string(),
        }),
        cmd
    );
}

#[test]
fn test_add_child() {
    let cmd = get_command("\t add-child \t PN1 \t   PN2\t  456 \t ").unwrap();
    assert_eq!(
        Command::AddChild(AddChildParams {
            parent_pn: "PN1".to_string(),
            child_pn: "PN2".to_string(),
            quantity: 456
        }),
        cmd
    );
}

#[test]
fn test_create() {
    let cmd = get_command("\t create \t   \t NAME ").unwrap();
    assert_eq!(
        Command::Create(CreateParams {
            name: "NAME".to_string(),
        }),
        cmd
    );
}

#[test]
fn every_command_of_the_client() {
    assert_eq!(Ok(Command::Help), get_command(" help "));
    assert_eq!(
        Ok(Command::WhereUsed(WhereUsedParams { pn: "A-1".to_string() })),
        get_command("where-used A-1")
    );
    assert_eq!(
        Ok(Command::Stock(StockParams { pn: "A_1".to_string() })),
        get_command("stock A_1")
    );
    assert_eq!(
        Ok(Command::Add(AddParams { pn: "P".to_string(), name: "A NAME".to_string() })),
        get_command("add P \"A NAME\"")
    );
    // `add` is tried before `add-child` and gives way to it
    assert!(matches!(get_command("add-child A B 1"), Ok(Command::AddChild(_))));
    // a command word stands right after the blanks of the line
    assert!(get_command("create  X").is_ok());
    assert!(get_command("createX").is_err());
    assert!(get_command("add P").is_err());
    assert!(get_command("add-child A B").is_err());
    assert!(get_command("add-child A B x").is_err());
    assert!(get_command("tree").is_err());
    assert!(get_command("").is_err());
}
