use haste_introspect::stringtable::{StringTable, StringTableItem, StringTables};

fn item(string: Option<&[u8]>, user_data: Option<&[u8]>) -> StringTableItem {
    StringTableItem {
        string: string.map(|b| b.to_vec()),
        user_data: user_data.map(|b| b.to_vec()),
    }
}

fn demo_table() -> StringTable {
    StringTable {
        name: "userinfo".to_string(),
        items: vec![
            item(Some(b"alice"), Some(&[1, 2, 3])),
            item(Some(b"bob"), None),
            item(None, Some(&[9])),
            item(None, None),
        ],
    }
}

#[test]
fn snapshot_copies_items_in_table_order() {
    let table = demo_table();
    let snap = table.snapshot_items();
    assert_eq!(snap.len(), 4);
    assert_eq!(snap[0].string, Some(b"alice".to_vec()));
    assert_eq!(snap[0].user_data, Some(vec![1, 2, 3]));
    assert_eq!(snap[1].string, Some(b"bob".to_vec()));
    assert_eq!(snap[1].user_data, None);
    assert_eq!(snap[2].string, None);
    assert_eq!(snap[2].user_data, Some(vec![9]));
    assert_eq!(snap[3].string, None);
    assert_eq!(snap[3].user_data, None);
}

#[test]
fn snapshot_is_isolated_from_later_mutation() {
    let mut table = demo_table();
    let snap = table.snapshot_items();
    table.items[0].user_data = Some(vec![77, 88]);
    table.items[0].string = None;
    table.items[2].user_data.as_mut().unwrap().push(200);
    assert_eq!(snap[0].user_data, Some(vec![1, 2, 3]));
    assert_eq!(snap[0].string, Some(b"alice".to_vec()));
    assert_eq!(snap[2].user_data, Some(vec![9]));
}

#[test]
fn find_table_matches_exact_names_only() {
    let tables = StringTables {
        tables: vec![
            demo_table(),
            StringTable { name: "instancebaseline".to_string(), items: vec![] },
        ],
    };
    assert!(tables.find_table(&"userinfo".to_string()).is_some());
    assert!(tables.find_table(&"instancebaseline".to_string()).is_some());
    assert!(tables.find_table(&"userinf".to_string()).is_none());
    assert!(tables.find_table(&"USERINFO".to_string()).is_none());
    assert!(tables.find_table(&String::new()).is_none());
}

#[test]
fn find_table_returns_the_first_match() {
    let tables = StringTables {
        tables: vec![
            StringTable { name: "dup".to_string(), items: vec![item(Some(b"first"), None)] },
            StringTable { name: "dup".to_string(), items: vec![item(Some(b"second"), None)] },
        ],
    };
    let t = tables.find_table(&"dup".to_string()).unwrap();
    assert_eq!(t.items[0].string, Some(b"first".to_vec()));
}
