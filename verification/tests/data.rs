use pylon::data::{has, parse_json, parse_toml, put, take, write_json, Tree};

#[test]
fn json_is_read() {
    let tree = parse_json(
        r#"{"a": 1, "b": -2, "c": "xé", "d": [true, null], "e": {"f": "g"}, "h": 1.5, "a": 3}"#,
    )
    .unwrap();
    assert_eq!(tree.integer("a"), Some(3));
    assert_eq!(tree.integer("b"), Some(-2));
    assert_eq!(tree.text("c").unwrap(), "x\u{e9}");
    match tree.get("d") {
        Some(Tree::List(items)) => {
            assert!(matches!(items[0], Tree::Bool(true)));
            assert!(matches!(items[1], Tree::Null));
            assert_eq!(items.len(), 2);
        }
        _ => panic!("a list"),
    }
    assert_eq!(tree.get("e").unwrap().text("f").unwrap(), "g");
    match tree.get("h") {
        Some(Tree::Float(n)) => assert_eq!(n.number().as_f64(), Some(1.5)),
        _ => panic!("a float"),
    }
    assert!(tree.get("z").is_none());
    assert!(tree.text("a").is_none());
    assert!(tree.integer("c").is_none());
}

#[test]
fn bad_json_is_refused() {
    for bad in ["", "{", "{\"a\": }", "[1,]", "nul", "1 2"] {
        assert!(parse_json(bad).is_none());
    }
    assert!(parse_json(&("[".repeat(200) + &"]".repeat(200))).is_none());
    assert!(parse_json(&("[".repeat(100) + &"]".repeat(100))).is_some());
}

#[test]
fn large_integers_keep_their_value() {
    let tree = parse_json(r#"{"a": 18446744073709551615, "b": 9223372036854775807}"#).unwrap();
    assert!(matches!(tree.get("a"), Some(Tree::Unsigned(u64::MAX))));
    assert_eq!(tree.integer("a"), None);
    assert_eq!(tree.integer("b"), Some(i64::MAX));
}

#[test]
fn json_is_written_and_read_again() {
    let text = r#"{"a":{"b":["x",1,-1,2.5,null,true]},"c":"\"q\""}"#;
    let written = write_json(parse_json(text).unwrap()).unwrap();
    assert_eq!(written, text);
}

#[test]
fn tables_are_changed() {
    let mut entries = match parse_json(r#"{"a": "1", "b": "2"}"#) {
        Some(Tree::Table(entries)) => entries,
        _ => panic!("a table"),
    };
    assert!(has(&entries, "a") && !has(&entries, "c"));
    put(&mut entries, "a".to_string(), Tree::Text("new".to_string()));
    put(&mut entries, "c".to_string(), Tree::Signed(-4));
    assert!(matches!(take(&mut entries, "b"), Some(Tree::Text(s)) if s == "2"));
    assert!(take(&mut entries, "d").is_none());
    let tree = Tree::Table(entries);
    assert_eq!(tree.text("a").unwrap(), "new");
    assert_eq!(tree.integer("c"), Some(-4));
    assert!(matches!(tree.get("b"), Some(Tree::Null)));
    assert_eq!(write_json(tree).unwrap(), r#"{"a":"new","b":null,"c":-4}"#);
}

#[test]
fn toml_is_read() {
    let tree = parse_toml(
        "n = 3\nf = 1.5\nb = true\nd = 1979-05-27\n[t]\ns = \"x\"\n[[l]]\na = -1\n[[l]]\na = 2\n",
    )
    .unwrap();
    assert_eq!(tree.integer("n"), Some(3));
    assert!(matches!(tree.get("f"), Some(Tree::Null)));
    assert!(matches!(tree.get("d"), Some(Tree::Null)));
    assert!(matches!(tree.get("b"), Some(Tree::Bool(true))));
    assert_eq!(tree.get("t").unwrap().text("s").unwrap(), "x");
    match tree.get("l") {
        Some(Tree::List(items)) => {
            let values: Vec<Option<i64>> = items.iter().map(|item| item.integer("a")).collect();
            assert_eq!(values, vec![Some(-1), Some(2)]);
        }
        _ => panic!("a list"),
    }
}

#[test]
fn bad_toml_is_refused_with_a_complaint() {
    match parse_toml("a = ") {
        Err(complaint) => assert!(complaint.contains("TOML parse error")),
        Ok(_) => panic!("no value"),
    }
}
