use viperus::{ViperusMap, ViperusValue};

#[test]
fn test_map_add_get() {
    let mut m = ViperusMap::new();
    let mv0 = m.add_value("test.value", ViperusValue::I32(10));
    assert_eq!(None, mv0);
    let mv1 = m.get_value("test.value").unwrap();
    if let ViperusValue::I32(v1) = mv1 {
        assert_eq!(10, *v1);
    }
}

#[test]
fn test_map_get_32() {
    let mut m = ViperusMap::default();
    m.add_value("test.value2", ViperusValue::from("none"));

    let mv0 = m.add_value("test.value", ViperusValue::from(42));
    assert_eq!(None, mv0);

    let _a1 = m.add::<i32>("test.value_i32", 314).unwrap_or_default();
    let _a2 = m.add::<i32>("test.value_i32", 314).unwrap_or_default();

    let v1 = m.get::<i32>("test.value").unwrap();
    assert_eq!(42, v1);

    let v1_i32 = m.get::<i32>("test.value_i32").unwrap();
    assert_eq!(314, v1_i32);

    let v1_str = m.get::<&str>("test.value2").unwrap();
    assert_eq!("none", v1_str);
}

#[test]
fn map_add_returns_previous_value() {
    let mut m = ViperusMap::new();
    assert_eq!(m.add::<i32>("k", 1), None);
    assert_eq!(m.add::<i32>("k", 2), Some(1));
    assert_eq!(m.get::<i32>("k"), Some(2));
    let old = m.add_value("k", ViperusValue::BOOL(true));
    assert_eq!(old, Some(ViperusValue::I32(2)));
    assert_eq!(m.get::<bool>("k"), Some(true));
}

#[test]
fn map_get_missing_key() {
    let m = ViperusMap::new();
    assert!(m.get_value("nothing").is_none());
    assert_eq!(m.get::<bool>("nothing"), None);
}

#[test]
fn map_get_parses_text() {
    let mut m = ViperusMap::new();
    m.add_value("b", ViperusValue::from("false"));
    m.add_value("i", ViperusValue::from("-17"));
    assert_eq!(m.get::<bool>("b"), Some(false));
    assert_eq!(m.get::<i32>("i"), Some(-17));
    assert_eq!(m.get::<String>("i"), Some(String::from("-17")));
}

#[test]
fn map_merge_prefers_source() {
    let mut a = ViperusMap::new();
    a.add_value("x", ViperusValue::I32(1));
    a.add_value("y", ViperusValue::I32(2));
    let mut b = ViperusMap::new();
    b.add_value("y", ViperusValue::I32(20));
    b.add_value("z", ViperusValue::I32(30));
    a.merge(&b);
    assert_eq!(a.get::<i32>("x"), Some(1));
    assert_eq!(a.get::<i32>("y"), Some(20));
    assert_eq!(a.get::<i32>("z"), Some(30));
    assert_eq!(b.get::<i32>("x"), None);
}

#[test]
fn map_clear_empties() {
    let mut a = ViperusMap::new();
    a.add_value("x", ViperusValue::Empty);
    a.clear();
    assert!(a.get_value("x").is_none());
}
