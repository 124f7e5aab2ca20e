use viperus::{
    ConfigAdapter, EnvAdapter, JavaPropertiesAdapter, JsonAdapter, TomlAdapter, ViperusMap,
    YamlAdapter,
};

#[test]
fn adapter_json_load() {
    let mut a = JsonAdapter::new();
    a.load_str("{ \"json\": true }").unwrap();
    a.parse().unwrap();

    let map = a.get_map();
    let jtrue = map.get::<bool>("json").unwrap();
    assert_eq!(jtrue, true);
}

#[test]
fn adapter_yaml_load() {
    let mut a = YamlAdapter::new();
    a.load_str("yaml: true\n").unwrap();
    a.parse().unwrap();

    let map = a.get_map();
    let jtrue = map.get::<bool>("yaml").unwrap();
    assert_eq!(jtrue, true);
}

#[test]
fn adapter_toml_load() {
    let mut a = TomlAdapter::new();
    a.load_str("[level1]\nkey1=true\nkeyi32=42\nkey=\"hello world!\"\n").unwrap();
    a.parse().unwrap();

    let map = a.get_map();
    let jtrue = map.get::<bool>("level1.key1").unwrap();
    assert_eq!(jtrue, true);

    let ji32 = map.get::<i32>("level1.keyi32").unwrap();
    assert_eq!(ji32, 42);

    let jstr = map.get::<String>("level1.key").unwrap();
    assert_eq!(jstr, "hello world!");
}

#[test]
fn ayaml_basic() {
    let mut adp = YamlAdapter::new();
    adp.load(&mut "test: true\n".as_bytes()).unwrap();
    adp.parse().unwrap();
    let map = adp.get_map();
    let test_value = map.get::<bool>("test").unwrap();
    assert_eq!(test_value, true);
}

#[test]
fn json_nested_objects_give_dotted_keys() {
    let mut a = JsonAdapter::new();
    a.load_str("{\"a\": {\"b\": {\"c\": \"deep\"}, \"n\": 5, \"l\": [true], \"z\": null}, \"t\": false}")
        .unwrap();
    a.parse().unwrap();
    let map = a.get_map();
    assert_eq!(map.get::<String>("a.b.c"), Some(String::from("deep")));
    assert_eq!(map.get::<bool>("t"), Some(false));
    assert!(map.get_value("a.n").is_none());
    assert!(map.get_value("a.l").is_none());
    assert!(map.get_value("a.z").is_none());
    assert!(map.get_value("a").is_none());
}

#[test]
fn json_later_key_wins() {
    let mut a = JsonAdapter::new();
    a.load_str("{\"a\": {\"b\": \"nested\"}, \"a.b\": \"flat\"}").unwrap();
    a.parse().unwrap();
    let map = a.get_map();
    assert_eq!(map.get::<String>("a.b"), Some(String::from("flat")));
}

#[test]
fn json_rejects_non_object() {
    let mut a = JsonAdapter::new();
    a.load_str("[1, 2]").unwrap();
    assert!(a.parse().is_err());
    let mut b = JsonAdapter::new();
    b.load_str("{ broken").unwrap();
    assert!(b.parse().is_err());
    assert!(b.get_map().get_value("broken").is_none());
}

#[test]
fn toml_integers_truncate_and_floats_are_skipped() {
    let mut a = TomlAdapter::new();
    a.load_str("big = 4294967297\nneg = -1\nf = 1.5\narr = [1, 2]\n[t]\n[t.u]\nv = \"x\"\n").unwrap();
    a.parse().unwrap();
    let map = a.get_map();
    assert_eq!(map.get::<i32>("big"), Some(1));
    assert_eq!(map.get::<i32>("neg"), Some(-1));
    assert!(map.get_value("f").is_none());
    assert!(map.get_value("arr").is_none());
    assert_eq!(map.get::<&str>("t.u.v"), Some("x"));
}

#[test]
fn toml_parse_error() {
    let mut a = TomlAdapter::new();
    a.load_str("= nothing").unwrap();
    assert!(a.parse().is_err());
}

#[test]
fn yaml_sequences_numbers_and_keys() {
    let mut a = YamlAdapter::new();
    a.load_str("list:\n  - 1\n  - 2\n  - 3\nf: 2.5\nn: -7\nouter:\n  inner: hi\n  7: skipped\n1: top\nnothing: ~\n")
        .unwrap();
    a.parse().unwrap();
    let map = a.get_map();
    assert_eq!(map.get::<i32>("list"), Some(3));
    assert_eq!(map.get::<i32>("f"), Some(0));
    assert_eq!(map.get::<i32>("n"), Some(-7));
    assert_eq!(map.get::<String>("outer.inner"), Some(String::from("hi")));
    assert!(map.get_value("outer.7").is_none());
    assert!(map.get_value("1").is_none());
    assert!(map.get_value("nothing").is_none());
}

#[test]
fn yaml_rejects_non_mapping() {
    let mut a = YamlAdapter::new();
    a.load_str("- a\n- b\n").unwrap();
    assert!(a.parse().is_err());
}

#[test]
fn properties_pairs_and_comments() {
    let mut a = JavaPropertiesAdapter::new();
    a.load_bytes(b"# comment\nlevel1.java_properties=true\nname = first\nname = second\n")
        .unwrap();
    a.parse().unwrap();
    let map = a.get_map();
    assert_eq!(map.get::<bool>("level1.java_properties"), Some(true));
    assert_eq!(map.get::<String>("name"), Some(String::from("second")));
}

#[test]
fn properties_error_keeps_earlier_pairs() {
    let mut a = JavaPropertiesAdapter::new();
    let r = a.load_bytes(b"good=1\nbad=\\u12\nlater=2\n");
    assert!(r.is_err());
    let map = a.get_map();
    assert_eq!(map.get::<i32>("good"), Some(1));
    assert!(map.get_value("later").is_none());
}

#[test]
fn properties_load_from_bytes() {
    let mut a = JavaPropertiesAdapter::new();
    a.load_bytes("k=v\n".as_bytes()).unwrap();
    assert_eq!(a.get_map().get::<&str>("k").map(|s| s.to_owned()), Some(String::from("v")));
}

#[test]
fn env_adapter_maps_process_variables() {
    let a = EnvAdapter::new();
    assert!(a.get_map().get_value("PATH").is_none());
    let mut b = EnvAdapter::new();
    let vars = vec![
        (String::from("PATH"), String::from("/bin")),
        (String::from("TEST_BOOL"), String::from("true")),
    ];
    b.load_vars(&vars);
    b.parse().unwrap();
    let m: ViperusMap = b.get_map();
    assert_eq!(m.get::<String>("PATH"), Some(String::from("/bin")));
    assert_eq!(m.get::<bool>("TEST_BOOL"), Some(true));
}

#[test]
fn toml_nesting_limit() {
    let mut a = TomlAdapter::new();
    a.load_str(&format!("a = {}1{}\n", "[".repeat(128), "]".repeat(128))).unwrap();
    assert!(a.parse().is_ok());
    let mut b = TomlAdapter::new();
    b.load_str(&format!("a = {}1{}\n", "[".repeat(100000), "]".repeat(100000))).unwrap();
    match b.parse() {
        Err(e) => assert_eq!(e.message(), "Generic Error: TOML text nests too deeply"),
        Ok(()) => panic!("too deep a text is refused"),
    }
}

#[test]
fn load_consumes_the_reader() {
    let mut a = YamlAdapter::new();
    let mut source: &[u8] = b"k: v\n";
    a.load(&mut source).unwrap();
    assert!(source.is_empty());
    a.parse().unwrap();
    assert_eq!(a.get_map().get::<String>("k"), Some(String::from("v")));
    let mut bad: &[u8] = &[0xff];
    assert!(a.load(&mut bad).is_err());
    assert_eq!(bad.len(), 1);
}

#[test]
fn toml_many_tables_and_arrays_load() {
    let mut text = String::new();
    for i in 0..300 {
        text.push_str(&format!("[section{}]\nlist = [1, 2, [3]]\nv = {}\n", i, i));
    }
    let mut a = TomlAdapter::new();
    a.load_str(&text).unwrap();
    a.parse().unwrap();
    assert_eq!(a.get_map().get::<i32>("section299.v"), Some(299));
}

#[test]
fn toml_dotted_keys_nesting_limit() {
    let key = vec!["a"; 100].join(".");
    let mut a = TomlAdapter::new();
    a.load_str(&format!("{} = 1\n", key)).unwrap();
    a.parse().unwrap();
    assert_eq!(a.get_map().get::<i32>(&key), Some(1));
    let mut b = TomlAdapter::new();
    b.load_str(&format!("{} = 1\n", vec!["a"; 500000].join("."))).unwrap();
    match b.parse() {
        Err(e) => assert_eq!(e.message(), "Generic Error: TOML text nests too deeply"),
        Ok(()) => panic!("too deep a text is refused"),
    }
}

#[test]
fn yaml_nesting_limit() {
    let mut a = YamlAdapter::new();
    a.load_str("a:\n  b:\n    - c: [1, [2, {d: 3}]]\n").unwrap();
    a.parse().unwrap();
    let mut b = YamlAdapter::new();
    b.load_str(&format!("{}x\n", "- ".repeat(500000))).unwrap();
    match b.parse() {
        Err(e) => assert_eq!(e.message(), "Generic Error: YAML text nests too deeply"),
        Ok(()) => panic!("too deep a text is refused"),
    }
}

#[test]
fn yaml_many_flow_lists_load() {
    let mut text = String::new();
    for i in 0..200 {
        text.push_str(&format!("k{}: [a, b]\n", i));
    }
    let mut a = YamlAdapter::new();
    a.load_str(&text).unwrap();
    a.parse().unwrap();
    assert_eq!(a.get_map().get::<String>("k199"), Some(String::from("b")));
}
