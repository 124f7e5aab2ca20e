use viperus::{ClapMatches, Format, Viperus, ViperusMap, ViperusValue};

#[test]
fn get_after_add_gives_the_value() {
    let mut v = Viperus::new();
    v.add_default("k", String::from("default"));
    v.load_file("c.json", Format::JSON, b"{\"k\": \"config\"}").unwrap();
    v.add("k", String::from("override"));
    assert_eq!(v.get::<String>("k"), Some(String::from("override")));
    assert_eq!(
        v.get_with_env::<String>("k", Some(String::from("env"))),
        Some(String::from("override"))
    );
}

#[test]
fn default_only_when_nothing_else() {
    let mut v = Viperus::new();
    assert_eq!(v.get::<i32>("k"), None);
    v.add_default("k", 8);
    assert_eq!(v.get::<i32>("k"), Some(8));
    v.load_file("c.toml", Format::TOML, b"k = 9\n").unwrap();
    assert_eq!(v.get::<i32>("k"), Some(9));
}

#[test]
fn override_hides_configuration_changes() {
    let mut a = Viperus::new();
    let mut b = Viperus::new();
    a.add("k", true);
    b.add("k", true);
    b.load_file("c.yaml", Format::YAML, b"k: false\n").unwrap();
    b.add_default("k", false);
    assert_eq!(a.get::<bool>("k"), b.get::<bool>("k"));
}

#[test]
fn config_before_environment_and_defaults() {
    let mut v = Viperus::new();
    v.automatic_env(true);
    v.add_default("k", 1);
    v.load_file("c.toml", Format::TOML, b"k = 2\n").unwrap();
    assert_eq!(v.get_with_env::<i32>("k", Some(String::from("3"))), Some(2));
}

#[test]
fn environment_before_defaults() {
    let mut v = Viperus::new();
    v.automatic_env(true);
    v.add_default("k", 1);
    assert_eq!(v.get_with_env::<i32>("k", Some(String::from("7"))), Some(7));
    let mut m = ClapMatches::new();
    m.add_arg("arg", false, Some(String::from("5")));
    v.load_clap(m).unwrap();
    v.bond_clap("arg", "k");
    assert_eq!(v.get_with_env::<i32>("k", Some(String::from("7"))), Some(7));
    assert_eq!(v.get_with_env::<i32>("k", None), Some(5));
}

#[test]
fn cached_lookup_repeats_whatever_the_environment() {
    let mut v = Viperus::new();
    v.automatic_env(true);
    v.cache(true);
    assert_eq!(v.get_with_env::<i32>("k", Some(String::from("4"))), Some(4));
    assert_eq!(v.get_with_env::<i32>("k", Some(String::from("5"))), Some(4));
    assert_eq!(v.get_with_env::<i32>("k", None), Some(4));
}

#[test]
fn cache_is_transparent_on_a_miss() {
    let mut a = Viperus::new();
    let mut b = Viperus::new();
    for v in [&mut a, &mut b] {
        v.add_default("d", String::from("x"));
        v.add("o", 3);
    }
    b.cache(true);
    assert_eq!(a.get::<String>("d"), b.get::<String>("d"));
    assert_eq!(a.get::<i32>("o"), b.get::<i32>("o"));
    assert_eq!(a.get::<i32>("none"), b.get::<i32>("none"));
}

#[test]
fn get_changes_nothing_but_the_cache() {
    let mut v = Viperus::new();
    v.load_file("c.json", Format::JSON, b"{\"k\": true}").unwrap();
    let before = v.loaded_file_names();
    v.cache(true);
    let _ = v.get::<bool>("k");
    assert_eq!(v.loaded_file_names(), before);
    assert!(v.cache_enabled());
    assert_eq!(v.get::<bool>("k"), Some(true));
}

#[test]
fn allowed_checks_match_readability() {
    let mut v = Viperus::new();
    v.add("s", String::from("abc"));
    v.add_default("n", 4);
    assert!(v.get_allowed::<String>("s"));
    assert!(!v.get_allowed::<i32>("s"));
    assert!(!v.get_allowed::<bool>("s"));
    assert!(v.get_allowed::<i32>("n"));
    assert!(!v.get_allowed::<String>("n"));
    assert!(v.get_allowed::<bool>("missing"));
    assert!(v.add_allowed::<String>("s"));
    assert!(!v.add_allowed::<bool>("s"));
    assert!(v.add_default_allowed::<i32>("n"));
    assert!(!v.add_default_allowed::<bool>("n"));
    let mut m = ClapMatches::new();
    m.add_arg("a", false, Some(String::from("zz")));
    v.load_clap(m).unwrap();
    v.bond_clap("a", "x");
    assert!(v.get_allowed::<i32>("x"));
    v.cache(true);
    assert!(!v.get_allowed::<i32>("x"));
    assert!(v.get_allowed::<String>("x"));
}

#[test]
fn load_clap_binds_each_argument_to_itself() {
    let mut v = Viperus::new();
    let mut m = ClapMatches::new();
    m.add_arg("config", true, Some(String::from("file.yaml")));
    m.add_arg("verbose", true, None);
    assert!(m.is_present("config"));
    assert_eq!(m.value_of("config"), Some(String::from("file.yaml")));
    assert_eq!(m.value_of("nothing"), None);
    v.load_clap(m).unwrap();
    assert_eq!(v.get::<String>("config"), Some(String::from("file.yaml")));
    assert_eq!(v.get::<bool>("verbose"), None);
    assert_eq!(v.bond_clap("x", "config"), Some(String::from("config")));
}

#[test]
fn cached_gets_agree_with_uncached_ones() {
    let mut cached = Viperus::new();
    let mut plain = Viperus::new();
    for v in [&mut cached, &mut plain] {
        v.load_file("c.json", Format::JSON, b"{\"a\": \"x\", \"b\": \"y\"}").unwrap();
        v.add_default("c", String::from("z"));
        v.add("b", String::from("w"));
    }
    cached.cache(true);
    for key in ["a", "b", "c", "b", "a", "missing", "c"] {
        assert_eq!(cached.get::<String>(key), plain.get::<String>(key));
    }
}

#[test]
fn map_read_gives_the_latest_write() {
    let mut m = ViperusMap::new();
    m.add_value("k", ViperusValue::I32(1));
    let mut src = ViperusMap::new();
    src.add_value("k", ViperusValue::I32(2));
    src.add_value("j", ViperusValue::BOOL(true));
    m.merge(&src);
    m.add_value("j", ViperusValue::I32(3));
    assert_eq!(m.get_value("k"), Some(&ViperusValue::I32(2)));
    assert_eq!(m.get_value("j"), Some(&ViperusValue::I32(3)));
    assert_eq!(m.get_value("never"), None);
}

#[test]
fn reload_with_cache_gives_fresh_values() {
    let mut v = Viperus::new();
    v.load_file("c.json", Format::JSON, b"{\"k\": \"old\"}").unwrap();
    v.add("o", true);
    v.cache(true);
    assert_eq!(v.get::<String>("k"), Some(String::from("old")));
    v.reload(&vec![Some(b"{\"k\": \"new\"}".to_vec())]).unwrap();
    assert!(v.cache_enabled());
    assert_eq!(v.get::<String>("k"), Some(String::from("new")));
    assert_eq!(v.get::<bool>("o"), Some(true));
    assert_eq!(v.loaded_file_names(), vec![String::from("c.json")]);
}

#[test]
fn values_read_back_by_reference() {
    let mut m = ViperusMap::new();
    m.add_value("b", ViperusValue::from(true));
    m.add_value("i", ViperusValue::from(-4));
    m.add_value("s", ViperusValue::from(String::from("text")));
    m.add_value("r", ViperusValue::from("slice"));
    assert_eq!(m.get::<bool>("b"), Some(true));
    assert_eq!(m.get::<i32>("i"), Some(-4));
    assert_eq!(m.get::<String>("s"), Some(String::from("text")));
    assert_eq!(m.get::<&str>("r"), Some("slice"));
}
