use pbs::{Database, Error, ItemMaturity, Store};

fn open_store() -> Store {
    Store::open(Database::new()).expect("can't open store")
}

#[test]
fn release() {
    let mut store = open_store();
    let parent = store.make_item("PARENT").unwrap();
    let item1 = store.make_item("ITEM1").unwrap();
    let item2 = store.make_item("ITEM2").unwrap();
    let cots1 = store.buy_item("EXT.001", "COTS1").unwrap();
    let cots2 = store.buy_item("EXT.002", "COTS2").unwrap();

    store.add_child(item1.id(), cots1.id(), 1).unwrap();
    store.add_child(item2.id(), cots1.id(), 1).unwrap();
    store.add_child(item2.id(), cots2.id(), 2).unwrap();
    store.add_child(parent.id(), item1.id(), 1).unwrap();
    store.add_child(parent.id(), item2.id(), 1).unwrap();

    assert_eq!(
        Some(Error::CantReleaseItem),
        store.release(parent.id()).err()
    );

    assert!(store.release(item1.id()).is_ok());

    assert_eq!(
        Some(Error::CantReleaseItem),
        store.release(parent.id()).err()
    );

    assert!(store.release(item2.id()).is_ok());
    assert!(store.release(parent.id()).is_ok());
}

#[test]
fn add_child() {
    let mut store = open_store();
    let parent = store.make_item("PARENT").unwrap();
    let item1 = store.make_item("ITEM1").unwrap();
    let item2 = store.make_item("ITEM2").unwrap();

    assert!(store.add_child(parent.id(), item1.id(), 1).is_ok());

    assert!(store.release(item1.id()).is_ok());
    assert!(store.release(parent.id()).is_ok());

    // parent is released, one can't add child anymore
    assert_eq!(
        Some(Error::CantAddChild),
        store.add_child(parent.id(), item2.id(), 1).err()
    );
}

#[test]
fn make_obsolete() {
    let mut store = open_store();
    let parent = store.make_item("PARENT").unwrap();
    let item1 = store.make_item("ITEM1").unwrap();
    let item2 = store.make_item("ITEM2").unwrap();
    let cots1 = store.buy_item("EXT.001", "COTS1").unwrap();
    let cots2 = store.buy_item("EXT.002", "COTS2").unwrap();

    store.add_child(item1.id(), cots1.id(), 1).unwrap();
    store.add_child(item2.id(), cots1.id(), 1).unwrap();
    store.add_child(item2.id(), cots2.id(), 2).unwrap();
    store.add_child(parent.id(), item1.id(), 1).unwrap();
    store.add_child(parent.id(), item2.id(), 1).unwrap();

    assert!(store.release(item1.id()).is_ok());
    assert!(store.release(item2.id()).is_ok());
    assert_eq!(
        ItemMaturity::Obsolete,
        store.make_obsolete(cots2.id()).unwrap().maturity()
    );
    assert_eq!(
        ItemMaturity::Obsolete,
        store.item(item2.id()).unwrap().maturity()
    );
    assert_eq!(
        ItemMaturity::InProgress,
        store.item(parent.id()).unwrap().maturity()
    );

    assert!(store.remove_child(parent.id(), item2.id()).is_ok());
    assert!(store.release(parent.id()).is_ok());

    assert_eq!(
        ItemMaturity::Obsolete,
        store.make_obsolete(cots1.id()).unwrap().maturity()
    );
    assert_eq!(
        ItemMaturity::Obsolete,
        store.item(item1.id()).unwrap().maturity()
    );
    assert_eq!(
        ItemMaturity::Obsolete,
        store.item(parent.id()).unwrap().maturity()
    );
}

#[test]
fn pn_allocation_counts_up_from_one() {
    let mut store = open_store();
    assert_eq!("00000001", store.make_item("A").unwrap().pn());
    assert_eq!("00000002", store.make_item("B").unwrap().pn());
    assert_eq!("00000003", store.make_item("C").unwrap().pn());
    assert_eq!("00000003", store.read_config("simple_pn_provider").unwrap());
}

#[test]
fn cascade_reaches_every_settled_ancestor() {
    let mut store = open_store();
    let parent = store.make_item("PARENT").unwrap();
    let item1 = store.make_item("ITEM1").unwrap();
    let cots1 = store.buy_item("EXT.001", "COTS1").unwrap();
    store.add_child(parent.id(), item1.id(), 1).unwrap();
    store.add_child(item1.id(), cots1.id(), 1).unwrap();
    store.release(item1.id()).unwrap();
    store.release(parent.id()).unwrap();

    let made = store.make_obsolete(cots1.id()).unwrap();
    assert_eq!(ItemMaturity::Obsolete, made.maturity());
    assert_eq!(ItemMaturity::Obsolete, store.item(cots1.id()).unwrap().maturity());
    assert_eq!(ItemMaturity::Obsolete, store.item(item1.id()).unwrap().maturity());
    assert_eq!(ItemMaturity::Obsolete, store.item(parent.id()).unwrap().maturity());
}

#[test]
fn cascade_stops_at_an_item_in_progress() {
    let mut store = open_store();
    let parent = store.make_item("PARENT").unwrap();
    let item1 = store.make_item("ITEM1").unwrap();
    let cots1 = store.buy_item("EXT.001", "COTS1").unwrap();
    store.add_child(parent.id(), item1.id(), 1).unwrap();
    store.add_child(item1.id(), cots1.id(), 1).unwrap();
    store.release(item1.id()).unwrap();

    store.make_obsolete(cots1.id()).unwrap();
    assert_eq!(ItemMaturity::Obsolete, store.item(cots1.id()).unwrap().maturity());
    assert_eq!(ItemMaturity::Obsolete, store.item(item1.id()).unwrap().maturity());
    assert_eq!(ItemMaturity::InProgress, store.item(parent.id()).unwrap().maturity());
}

#[test]
fn make_obsolete_is_for_procured_items() {
    let mut store = open_store();
    let made = store.make_item("MADE").unwrap();
    assert_eq!(Some(Error::CantMakeObsolete), store.make_obsolete(made.id()).err());
    assert_eq!(ItemMaturity::InProgress, store.item(made.id()).unwrap().maturity());
    assert_eq!(Some(Error::NotFound), store.make_obsolete(42).err());
}

#[test]
fn release_guards() {
    let mut store = open_store();
    let bought = store.buy_item("EXT", "COTS").unwrap();
    assert_eq!(Some(Error::CantReleaseItem), store.release(bought.id()).err());
    assert_eq!(Some(Error::NotFound), store.release(42).err());
    let made = store.make_item("MADE").unwrap();
    let released = store.release(made.id()).unwrap();
    assert_eq!(ItemMaturity::Released, released.maturity());
    // released once, not twice
    assert_eq!(Some(Error::CantReleaseItem), store.release(made.id()).err());
}

#[test]
fn release_looks_below_the_children() {
    let mut store = open_store();
    let top = store.make_item("TOP").unwrap();
    let mid = store.make_item("MID").unwrap();
    let low = store.make_item("LOW").unwrap();
    store.add_child(top.id(), mid.id(), 1).unwrap();
    store.add_child(mid.id(), low.id(), 1).unwrap();
    // the database can be told what the rules would refuse
    let mut db = pbs::Database::from_rows(
        store.items().unwrap(),
        store.database().links(),
        store.database().config_entries(),
    )
    .unwrap();
    db.set_maturity(mid.id(), ItemMaturity::Released).unwrap();
    let mut store = Store::open(db).unwrap();
    // MID is released, LOW below it is not
    assert_eq!(Some(Error::CantReleaseItem), store.release(top.id()).err());
    store.release(low.id()).unwrap();
    assert!(store.release(top.id()).is_ok());
}

#[test]
fn release_on_a_cycle_is_refused() {
    let mut store = open_store();
    let a = store.make_item("A").unwrap();
    let b = store.make_item("B").unwrap();
    store.add_child(a.id(), b.id(), 1).unwrap();
    store.add_child(b.id(), a.id(), 1).unwrap();
    assert_eq!(Some(Error::CantReleaseItem), store.release(a.id()).err());
    assert_eq!(Some(Error::CantReleaseItem), store.release(b.id()).err());
    assert!(store.checked_report(a.id()).is_none());
}

#[test]
fn child_guards() {
    let mut store = open_store();
    let parent = store.make_item("PARENT").unwrap();
    let child = store.make_item("CHILD").unwrap();
    let bought = store.buy_item("EXT", "COTS").unwrap();

    assert_eq!(Some(Error::NotFound), store.add_child(42, child.id(), 1).err());
    assert_eq!(
        Some(Error::CantAddChild),
        store.add_child(bought.id(), child.id(), 1).err()
    );
    assert_eq!(
        Some(Error::StorageError(pbs::StorageFault::UnknownItem)),
        store.add_child(parent.id(), 42, 1).err()
    );
    assert!(store.add_child(parent.id(), child.id(), 3).is_ok());
    assert_eq!(
        Some(Error::StorageError(pbs::StorageFault::DuplicateLink)),
        store.add_child(parent.id(), child.id(), 5).err()
    );
    let children = store.children(parent.id()).unwrap();
    assert_eq!(1, children.len());
    assert!(!children.is_empty());
    let first = children.get(0).unwrap();
    assert_eq!(child.id(), first.id());
    assert_eq!("CHILD", first.name());
    assert_eq!("00000002", first.pn());
    assert_eq!(ItemMaturity::InProgress, first.maturity());
    assert_eq!(3, first.quantity());
    assert_eq!(child.id(), first.item().id());
    assert!(children.get(1).is_none());
    let mut cursor = children.iter();
    assert_eq!(3, cursor.next().unwrap().quantity);
    assert!(cursor.next().is_none());
    let owned = pbs::Child::from(children.get(0).unwrap());
    assert_eq!(3, owned.quantity);
    assert_eq!("CHILD", owned.item.name());

    let used = store.where_used(child.id()).unwrap();
    assert_eq!(1, used.len());
    assert_eq!(parent.id(), used[0].id());

    assert_eq!(Some(Error::NotFound), store.remove_child(42, child.id()).err());
    assert_eq!(
        Some(Error::CantRemoveChild),
        store.remove_child(bought.id(), child.id()).err()
    );
    assert_eq!(
        Some(Error::StorageError(pbs::StorageFault::MissingLink)),
        store.remove_child(parent.id(), bought.id()).err()
    );
    assert!(store.remove_child(parent.id(), child.id()).is_ok());
    assert!(store.children(parent.id()).unwrap().is_empty());
}

#[test]
fn buy_item_needs_a_fresh_part_number() {
    let mut store = open_store();
    let first = store.buy_item("EXT.001", "COTS").unwrap();
    assert_eq!(ItemMaturity::Released, first.maturity());
    assert_eq!(
        Some(Error::DuplicatePartNumber),
        store.buy_item("EXT.001", "OTHER").err()
    );
    let made = store.make_item("MADE").unwrap();
    assert_eq!(
        Some(Error::StorageError(pbs::StorageFault::DuplicateItem)),
        store.buy_item(made.pn(), "CLASH").err()
    );
    assert_eq!(2, store.items().unwrap().len());
}

#[test]
fn make_item_keeps_the_number_it_could_not_use() {
    let mut store = open_store();
    store.buy_item("00000001", "SQUATTER").unwrap();
    assert!(store.can_allocate_pn());
    assert_eq!(
        Some(Error::StorageError(pbs::StorageFault::DuplicateItem)),
        store.make_item("FIRST").err()
    );
    assert_eq!("00000001", store.read_config("simple_pn_provider").unwrap());
    assert_eq!("00000002", store.make_item("SECOND").unwrap().pn());
}

#[test]
fn pn_counter_reads_what_was_written() {
    let mut store = open_store();
    store.write_config("simple_pn_provider", "+41").unwrap();
    assert_eq!("00000042", store.make_item("A").unwrap().pn());
    store.write_config("simple_pn_provider", "not a number").unwrap();
    assert_eq!("00000001", store.make_item("B").unwrap().pn());
    store.write_config("simple_pn_provider", "123456789").unwrap();
    assert_eq!("123456790", store.make_item("C").unwrap().pn());
    store
        .write_config("simple_pn_provider", "18446744073709551615")
        .unwrap();
    assert!(!store.can_allocate_pn());
    store
        .write_config("simple_pn_provider", "18446744073709551616")
        .unwrap();
    // too large to be a counter: counting starts again
    assert!(store.can_allocate_pn());
    assert_eq!(
        Some(Error::StorageError(pbs::StorageFault::DuplicateItem)),
        store.make_item("D").err()
    );
    assert_eq!("00000002", store.make_item("E").unwrap().pn());
}

#[test]
fn config_round_trip() {
    let mut store = open_store();
    assert_eq!("", store.read_config("unset").unwrap());
    store.write_config("k", "v").unwrap();
    assert_eq!("v", store.read_config("k").unwrap());
    store.write_config("k", "w").unwrap();
    assert_eq!("w", store.read_config("k").unwrap());
    assert_eq!("", store.read_config("unset").unwrap());
}

#[test]
fn search_items_orders_by_pn() {
    let mut store = open_store();
    store.make_item("FIRST ITEM").unwrap();
    store.make_item("SECOND ITEM").unwrap();
    store.make_item("THIRD THING").unwrap();
    store.buy_item("123.003", "OTHER BUY THING").unwrap();
    store.buy_item("123.678", "THING 1003").unwrap();
    let found = store.search_items("%003%").unwrap();
    let pns: Vec<&str> = found.iter().map(|item| item.pn()).collect();
    assert_eq!(vec!["00000003", "123.003", "123.678"], pns);
}

#[test]
fn report_sums_over_every_way_down() {
    let mut store = open_store();
    let top = store.make_item("TOP").unwrap();
    let a = store.make_item("A").unwrap();
    let b = store.make_item("B").unwrap();
    let c = store.buy_item("C", "C").unwrap();
    store.add_child(top.id(), a.id(), 2).unwrap();
    store.add_child(top.id(), b.id(), 1).unwrap();
    store.add_child(a.id(), c.id(), 3).unwrap();
    store.add_child(b.id(), c.id(), 4).unwrap();
    store.add_child(top.id(), c.id(), 5).unwrap();

    let report = store.checked_report(top.id()).unwrap();
    assert_eq!(3, report.len());
    assert!(!report.is_empty());
    assert_eq!(2, report.quantity_of(a.id()));
    assert_eq!(1, report.quantity_of(b.id()));
    // 3 below A, 4 below B and 5 directly; the 2 of A does not multiply
    assert_eq!(12, report.quantity_of(c.id()));
    assert_eq!(0, report.quantity_of(top.id()));
    assert_eq!("C", report.get(c.id()).unwrap().pn());
    assert!(report.get(top.id()).is_none());

    let mut total = 0;
    let mut rows = 0;
    let mut cursor = report.iter();
    while let Some(row) = cursor.next() {
        total += row.quantity();
        rows += 1;
    }
    assert_eq!(3, rows);
    assert_eq!(15, total);

    let of_a = store.report(a.id()).unwrap();
    assert_eq!(1, of_a.len());
    assert_eq!(3, of_a.quantity_of(c.id()));
    assert!(store.report(c.id()).unwrap().is_empty());
}

#[test]
fn report_does_not_compound_across_levels() {
    let mut store = open_store();
    let a = store.make_item("A").unwrap();
    let b = store.make_item("B").unwrap();
    let c = store.make_item("C").unwrap();
    store.add_child(a.id(), b.id(), 2).unwrap();
    store.add_child(b.id(), c.id(), 3).unwrap();
    let report = store.checked_report(a.id()).unwrap();
    assert_eq!(2, report.quantity_of(b.id()));
    assert_eq!(3, report.quantity_of(c.id()));
}

#[test]
fn report_refuses_what_does_not_fit() {
    let mut store = open_store();
    let a = store.make_item("A").unwrap();
    let b = store.make_item("B").unwrap();
    let c = store.make_item("C").unwrap();
    store.add_child(a.id(), b.id(), 1).unwrap();
    store.add_child(a.id(), c.id(), usize::MAX).unwrap();
    store.add_child(b.id(), c.id(), 1).unwrap();
    assert!(store.checked_report(a.id()).is_none());
    assert!(store.checked_report(b.id()).is_some());
}

#[test]
fn open_refuses_two_procured_items_with_one_pn() {
    let first = pbs::Item::new(1, "EXT", "a", 1, ItemMaturity::Released, pbs::Strategy::Buy);
    let second = pbs::Item::new(2, "EXT", "b", 2, ItemMaturity::Released, pbs::Strategy::Buy);
    let db = Database::from_rows(vec![first, second], vec![], vec![]).unwrap();
    assert_eq!(Some(Error::DuplicatePartNumber), Store::open(db).err());
    // one of them made in house is no clash
    let first = pbs::Item::new(1, "EXT", "a", 1, ItemMaturity::Released, pbs::Strategy::Buy);
    let second = pbs::Item::new(2, "EXT", "b", 2, ItemMaturity::Released, pbs::Strategy::Make);
    let db = Database::from_rows(vec![first, second], vec![], vec![]).unwrap();
    assert!(Store::open(db).is_ok());
}

#[test]
fn items_are_the_same_by_their_identifier() {
    let a = pbs::Item::new(1, "A", "a", 1, ItemMaturity::Released, pbs::Strategy::Buy);
    let b = pbs::Item::new(1, "B", "b", 2, ItemMaturity::InProgress, pbs::Strategy::Make);
    let c = pbs::Item::new(2, "A", "a", 1, ItemMaturity::Released, pbs::Strategy::Buy);
    assert!(a == b);
    assert!(a != c);
    assert!(a == a.clone());
}

#[test]
fn tree_lines_indent_by_level() {
    let mut store = open_store();
    let top = store.make_item("TOP").unwrap();
    let mid = store.make_item("MID").unwrap();
    let low = store.buy_item("EXT", "LOW").unwrap();
    store.add_child(top.id(), mid.id(), 2).unwrap();
    store.add_child(mid.id(), low.id(), 3).unwrap();
    store.add_child(top.id(), low.id(), 1).unwrap();
    let lines = pbs::shell::tree_lines(&store, top.id()).unwrap().unwrap();
    assert_eq!(
        vec![
            "[00000001-001] \"TOP\" - In progress...",
            "  - [00000002-001] \"MID\" - In progress... : quantity=2",
            "    - [EXT-001] \"LOW\" - Released : quantity=3",
            "  - [EXT-001] \"LOW\" - Released : quantity=1",
        ],
        lines
    );
    assert_eq!(Some(Error::NotFound), pbs::shell::tree_lines(&store, 9).err());
    store.add_child(mid.id(), top.id(), 1).unwrap();
    assert_eq!(Ok(None), pbs::shell::tree_lines(&store, top.id()));
}

#[test]
fn shell_lines() {
    let mut store = open_store();
    let top = store.make_item("TOP").unwrap();
    let low = store.buy_item("EXT", "LOW").unwrap();
    store.add_child(top.id(), low.id(), 7).unwrap();
    assert_eq!("  ADDED [00000001-001] \"TOP\" - In progress...", pbs::shell::added_line(&top));
    assert_eq!("  RELEASED : [EXT-001] \"LOW\" - Released", pbs::shell::released_line(&low));
    assert_eq!(
        vec!["  - [00000001-001] \"TOP\" - In progress...", "  - [EXT-001] \"LOW\" - Released"],
        pbs::shell::list_lines(&store.items().unwrap())
    );
    assert_eq!(
        vec!["[EXT-001] \"LOW\" - Released parents :", "  - [00000001-001] \"TOP\" - In progress..."],
        pbs::shell::where_used_lines(&low, &store.where_used(low.id()).unwrap())
    );
    let report = store.checked_report(top.id()).unwrap();
    assert_eq!(
        vec!["  - [EXT-001] \"LOW\" - Released : 7"],
        pbs::shell::report_lines(&report)
    );
    assert!(pbs::shell::COMMANDS.contains("item make <NAME>"));
}
