use pbs::{ChildLink, Database, Error, Item, ItemMaturity, StorageFault, Strategy};

#[test]
fn tests_init_database() {
    assert!(Database::from_rows(vec![], vec![], vec![]).is_ok());
}

#[test]
fn database_init_database() {
    let db = Database::new();
    assert!(db.items().unwrap().is_empty());
    assert!(db.links().is_empty());
    assert!(db.config_entries().is_empty());
}

#[test]
fn tests_add_items() {
    let mut db = Database::new();
    assert!(db.new_make_item("PN1", "NAME1").is_ok());
    let items = db.items();
    assert!(items.is_ok());
    let items = items.unwrap();
    assert_eq!(1, items.len());
}

#[test]
fn database_add_items() {
    let mut db = Database::new();
    assert!(db
        .insert_item("PN1", "NAME1", Strategy::Make, ItemMaturity::InProgress)
        .is_ok());
    let items = db.items();
    assert!(items.is_ok());
    let items = items.unwrap();
    assert_eq!(1, items.len());
}

#[test]
fn tests_add_childrens() {
    let mut db = Database::new();
    let item1 = db.new_make_item("1", "PARENT").unwrap();
    let item2 = db.new_make_item("11", "CHILD1").unwrap();
    let item3 = db.new_make_item("12", "CHILD2").unwrap();
    db.add_link(item1.id(), item2.id(), 1).unwrap();
    db.add_link(item1.id(), item3.id(), 2).unwrap();
    let children = db.children_of(item1.id()).unwrap();
    assert_eq!(2, children.len());

    // can't add an already existing child
    assert!(db.add_link(item1.id(), item3.id(), 2).is_err());
}

#[test]
fn database_add_childrens() {
    let mut db = Database::new();
    let item1 = db
        .insert_item("1", "PARENT", Strategy::Make, ItemMaturity::InProgress)
        .unwrap();
    let item2 = db
        .insert_item("11", "CHILD1", Strategy::Make, ItemMaturity::InProgress)
        .unwrap();
    let item3 = db
        .insert_item("12", "CHILD2", Strategy::Make, ItemMaturity::InProgress)
        .unwrap();
    db.add_link(item1.id(), item2.id(), 1).unwrap();
    db.add_link(item1.id(), item3.id(), 2).unwrap();
    let children = db.children_of(item1.id()).unwrap();
    assert_eq!(2, children.len());
    assert_eq!("CHILD1", children[0].0.name());
    assert_eq!(1, children[0].1);
    assert_eq!("CHILD2", children[1].0.name());
    assert_eq!(2, children[1].1);

    // can't add an already existing child
    assert_eq!(
        Err(Error::StorageError(StorageFault::DuplicateLink)),
        db.add_link(item1.id(), item3.id(), 2)
    );
}

#[test]
fn tests_add_same_pn() {
    let mut db = Database::new();
    let _ = db.new_make_item("PN", "ITEM").unwrap();
    assert!(db.new_make_item("PN", "ANOTHER").is_err());
}

#[test]
fn database_add_same_pn() {
    let mut db = Database::new();
    let _ = db
        .insert_item("PN", "ITEM", Strategy::Make, ItemMaturity::InProgress)
        .unwrap();
    assert_eq!(
        Some(Error::StorageError(StorageFault::DuplicateItem)),
        db.insert_item("PN", "ANOTHER", Strategy::Make, ItemMaturity::InProgress)
            .err()
    );
    assert_eq!(1, db.items().unwrap().len());
}

#[test]
fn tests_config() {
    let mut db = Database::new();
    assert_eq!("".to_string(), db.get_config("key").unwrap());
    assert!(db.set_config("key", "value").is_ok());
    assert_eq!("value".to_string(), db.get_config("key").unwrap());
    let _ = db.set_config("key", "value 2");
    assert_eq!("value 2", db.get_config("key").unwrap());
}

#[test]
fn database_config() {
    let mut db = Database::new();
    assert_eq!("".to_string(), db.get_config("key").unwrap());
    assert!(db.set_config("key", "value").is_ok());
    assert_eq!("value".to_string(), db.get_config("key").unwrap());
    let _ = db.set_config("key", "value 2");
    assert_eq!("value 2", db.get_config("key").unwrap());
    assert_eq!("", db.get_config("other").unwrap());
    assert!(db.set_config("other", "x").is_ok());
    assert_eq!("value 2", db.get_config("key").unwrap());
    assert_eq!("x", db.get_config("other").unwrap());
}

#[test]
fn search() {
    let mut db = Database::new();
    db.new_make_item("00000001", "FIRST ITEM").unwrap();
    db.new_make_item("00000002", "SECOND ITEM").unwrap();
    db.new_make_item("00000003", "THIRD THING").unwrap();
    db.new_make_item("123.456", "BUY THING").unwrap();
    db.new_make_item("123.003", "OTHER BUY THING").unwrap();
    db.new_make_item("123.678", "THING 1003").unwrap();

    let items = db.search("%000%").unwrap();
    assert_eq!(3, items.len());
    assert_eq!("00000001", items.get(0).unwrap().pn());
    assert_eq!("00000002", items.get(1).unwrap().pn());
    assert_eq!("00000003", items.get(2).unwrap().pn());

    let items = db.search("%003%").unwrap();
    assert_eq!(3, items.len());
    assert_eq!("00000003", items.get(0).unwrap().pn());
    assert_eq!("123.003", items.get(1).unwrap().pn());
    assert_eq!("123.678", items.get(2).unwrap().pn());
}

#[test]
fn search_patterns() {
    let mut db = Database::new();
    db.new_make_item("B-2", "Bracket").unwrap();
    db.new_make_item("A-1", "bolt").unwrap();
    db.new_make_item("C-3", "Nut").unwrap();

    // no wildcard: the whole text has to match
    assert_eq!(0, db.search("A").unwrap().len());
    assert_eq!(1, db.search("A-1").unwrap().len());
    // letters match in either case
    let found = db.search("b%").unwrap();
    assert_eq!(2, found.len());
    assert_eq!("A-1", found[0].pn());
    assert_eq!("B-2", found[1].pn());
    // `_` stands for one character
    assert_eq!(3, db.search("_-_").unwrap().len());
    assert_eq!(0, db.search("_-").unwrap().len());
    assert_eq!(1, db.search("n_t").unwrap().len());
    // the empty pattern matches the empty text only
    assert_eq!(0, db.search("").unwrap().len());
    // everything, ordered by part number
    let all = db.search("%").unwrap();
    assert_eq!(3, all.len());
    assert_eq!("A-1", all[0].pn());
    assert_eq!("B-2", all[1].pn());
    assert_eq!("C-3", all[2].pn());
}

#[test]
fn ensure_unique() {
    let mut db = Database::new();

    // test unique PN / version
    let res_1 = db.new_buy_item("PN", "NAME 1");
    assert!(res_1.is_ok());
    assert!(db.new_buy_item("PN", "NAME 2").is_err());

    // test unique parent/child
    let item1 = res_1.unwrap();
    let item2 = db.new_make_item("PN2", "NAME 2").unwrap();
    assert!(db.add_link(item2.id(), item1.id(), 10).is_ok());
    assert!(db.add_link(item2.id(), item1.id(), 5).is_err());
}

#[test]
fn identifiers_count_up_from_one() {
    let mut db = Database::new();
    let a = db.new_make_item("A", "a").unwrap();
    let b = db.new_buy_item("B", "b").unwrap();
    assert_eq!(1, a.id());
    assert_eq!(1, a.version());
    assert_eq!(ItemMaturity::InProgress, a.maturity());
    assert_eq!(Strategy::Make, a.strategy());
    assert_eq!(2, b.id());
    assert_eq!(ItemMaturity::Released, b.maturity());
    assert_eq!(Strategy::Buy, b.strategy());
    assert_eq!("B", db.item_by_id(2).unwrap().pn());
    assert_eq!(Some(Error::NotFound), db.item_by_id(3).err());
    assert_eq!(Some(Error::NotFound), db.item_by_id(0).err());
    assert_eq!(Some(Error::NotFound), db.item_by_id(-1).err());
    assert_eq!(1, db.get_item_by_pn("A").unwrap().id());
    assert_eq!(Some(Error::NotFound), db.get_item_by_pn("C").err());
}

#[test]
fn links_need_stored_items() {
    let mut db = Database::new();
    let a = db.new_make_item("A", "a").unwrap();
    assert_eq!(
        Err(Error::StorageError(StorageFault::UnknownItem)),
        db.add_link(a.id(), 7, 1)
    );
    assert_eq!(
        Err(Error::StorageError(StorageFault::UnknownItem)),
        db.add_link(7, a.id(), 1)
    );
    assert_eq!(
        Err(Error::StorageError(StorageFault::MissingLink)),
        db.remove_link(a.id(), a.id())
    );
    assert!(db.add_link(a.id(), a.id(), 3).is_ok());
    assert_eq!(1, db.parents_of(a.id()).unwrap().len());
    assert!(db.remove_link(a.id(), a.id()).is_ok());
    assert_eq!(0, db.parents_of(a.id()).unwrap().len());
}

#[test]
fn set_maturity_is_unconditional() {
    let mut db = Database::new();
    let a = db.new_buy_item("A", "a").unwrap();
    let back = db.set_maturity(a.id(), ItemMaturity::InProgress).unwrap();
    assert_eq!(ItemMaturity::InProgress, back.maturity());
    assert_eq!(
        ItemMaturity::InProgress,
        db.item_by_id(a.id()).unwrap().maturity()
    );
    assert_eq!(
        Some(Error::NotFound),
        db.set_maturity(9, ItemMaturity::Obsolete).err()
    );
}

#[test]
fn codes_are_stable() {
    assert_eq!(0, ItemMaturity::InProgress.code());
    assert_eq!(1, ItemMaturity::Released.code());
    assert_eq!(2, ItemMaturity::Obsolete.code());
    assert_eq!(0, Strategy::Make.code());
    assert_eq!(1, Strategy::Buy.code());
    assert_eq!(Some(ItemMaturity::Obsolete), ItemMaturity::from_code(2));
    assert_eq!(None, ItemMaturity::from_code(3));
    assert_eq!(Some(Strategy::Buy), Strategy::from_code(1));
    assert_eq!(None, Strategy::from_code(-1));
}

#[test]
fn item_line() {
    let item = Item::new(4, "123.003", "WASHER", 12, ItemMaturity::Released, Strategy::Buy);
    assert_eq!("[123.003-012] \"WASHER\" - Released", item.to_string());
    let item = Item::new(5, "P", "N", 1234, ItemMaturity::InProgress, Strategy::Make);
    assert_eq!("[P-1234] \"N\" - In progress...", item.to_string());
}

#[test]
fn rows_round_trip() {
    let mut db = Database::new();
    let a = db.new_make_item("A", "a").unwrap();
    let b = db.new_buy_item("B", "b").unwrap();
    db.add_link(a.id(), b.id(), 4).unwrap();
    db.set_config("k", "v").unwrap();

    let copy = Database::from_rows(db.items().unwrap(), db.links(), db.config_entries()).unwrap();
    assert_eq!(2, copy.items().unwrap().len());
    assert_eq!("v", copy.get_config("k").unwrap());
    let children = copy.children_of(a.id()).unwrap();
    assert_eq!(1, children.len());
    assert_eq!("B", children[0].0.pn());
    assert_eq!(4, children[0].1);
}

#[test]
fn inconsistent_rows_are_refused() {
    let item = |id: i64, pn: &str| Item::new(id, pn, "n", 1, ItemMaturity::InProgress, Strategy::Make);
    let refused = Some(Error::StorageError(StorageFault::Inconsistent));
    // identifiers have to count up from one
    assert_eq!(
        refused,
        Database::from_rows(vec![item(2, "A")], vec![], vec![]).err()
    );
    // a part number comes once in a version
    assert_eq!(
        refused,
        Database::from_rows(vec![item(1, "A"), item(2, "A")], vec![], vec![]).err()
    );
    // a link joins stored items
    let link = ChildLink { parent_id: 1, child_id: 2, quantity: 1 };
    assert_eq!(
        refused,
        Database::from_rows(vec![item(1, "A")], vec![link], vec![]).err()
    );
    // a pair is linked once
    assert_eq!(
        refused,
        Database::from_rows(vec![item(1, "A"), item(2, "B")], vec![link, link], vec![]).err()
    );
    // a key comes once
    let pair = ("k".to_string(), "v".to_string());
    assert_eq!(
        refused,
        Database::from_rows(vec![], vec![], vec![pair.clone(), pair]).err()
    );
    // a version is positive
    let old = Item::new(1, "A", "n", 0, ItemMaturity::InProgress, Strategy::Make);
    assert_eq!(refused, Database::from_rows(vec![old], vec![], vec![]).err());
}
