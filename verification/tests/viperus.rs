use viperus::{
    AdapterResult, ClapMatches, ConfigAdapter, Format, Viperus, ViperusError, ViperusMap,
};

const JSON: &[u8] = b"{\"level1\": {\"key_json\": true}}";
const YAML: &[u8] = b"level1:\n  key_yaml: true\n";
const TOML: &[u8] = b"[level1]\nkey_toml = true\n";
const PROPERTIES: &[u8] = b"level1.java_properties=true\n";

#[test]
fn lib_errors() {
    let e = ViperusError::Generic(String::from("generic"));
    let fe = e.message();
    assert_ne!(fe, "");
    assert_eq!(fe, "Generic Error: generic");
}

#[test]
fn lib_works() {
    let mut v = Viperus::default();
    v.load_file("./assets/test.json", Format::JSON, JSON).unwrap();
    v.load_file("./assets/test.yaml", Format::YAML, YAML).unwrap();
    v.load_file("./assets/test.toml", Format::TOML, TOML).unwrap();
    v.load_file("./assets/test.properties", Format::JAVAPROPERTIES, PROPERTIES)
        .unwrap();
    v.add("service.url", String::from("http://example.com"));

    let s: String = v.get("service.url").unwrap();
    assert_eq!("http://example.com", s);

    let json_b = v.get::<bool>("level1.key_json").unwrap();
    assert_eq!(true, json_b);
    let jyaml_b = v.get::<bool>("level1.key_yaml").unwrap();
    assert_eq!(true, jyaml_b);

    let jprop_b = v.get::<bool>("level1.java_properties").unwrap();
    assert_eq!(true, jprop_b);
    v.cache(true);
    let jprop_b = v.get::<bool>("level1.java_properties").unwrap();
    assert_eq!(true, jprop_b);
    let jprop_b = v.get::<bool>("level1.java_properties").unwrap();
    assert_eq!(true, jprop_b);
    v.cache(false);

    v.add_default("default", true);
    assert_eq!(v.get::<bool>("default").unwrap(), true);

    v.cache(true);
    assert_eq!(v.get::<bool>("default").unwrap(), true);
    assert_eq!(v.get::<bool>("default").unwrap(), true);
    v.cache(false);

    let contents = vec![
        Some(JSON.to_vec()),
        Some(YAML.to_vec()),
        Some(TOML.to_vec()),
        Some(PROPERTIES.to_vec()),
    ];
    v.reload(&contents).unwrap();
    assert_eq!(v.get::<bool>("default").unwrap(), true);

    v.cache(true);
    let contents: Vec<Option<Vec<u8>>> = v
        .loaded_file_names()
        .iter()
        .map(|_| None)
        .collect();
    v.reload(&contents).unwrap();
    assert_eq!(v.get::<bool>("default").unwrap(), true);
    v.cache(false);
}

struct ZeroAdapter {}

impl ConfigAdapter for ZeroAdapter {
    fn parse(&mut self) -> AdapterResult<()> {
        Ok(())
    }

    fn get_map(&self) -> ViperusMap {
        ViperusMap::new()
    }
}

#[test]
fn test_main() {
    let mut instance = Viperus::new();
    let mut matches = ClapMatches::new();
    matches.add_arg("v", false, None);
    matches.add_arg("config", false, None);

    viperus::load_file(&mut instance, ".env", Format::ENV, b"").unwrap();
    viperus::load_clap(&mut instance, matches).expect("strange...");
    viperus::bond_clap(&mut instance, "v", "verbose");
    viperus::add(&mut instance, "verbose", true);

    let f_verbose = viperus::get::<bool>(&mut instance, "verbose").unwrap();
    assert_eq!(true, f_verbose);

    let contents: Vec<Option<Vec<u8>>> = vec![Some(Vec::new())];
    viperus::reload(&mut instance, &contents).unwrap();
    let f_verbose = viperus::get::<bool>(&mut instance, "verbose").unwrap();
    assert_eq!(true, f_verbose);
}

#[test]
fn test_adapter() {
    let mut instance = Viperus::new();
    let mut adp = ZeroAdapter {};
    viperus::load_adapter(&mut instance, &mut adp).unwrap();
    viperus::add(&mut instance, "verbose", true);

    let f_verbose = viperus::get::<bool>(&mut instance, "verbose").unwrap();
    assert_eq!(true, f_verbose);

    instance.set_environment(&vec![(String::from("TEST_MATCH"), String::from("true"))]);
    viperus::automatic_env(&mut instance, true);
    viperus::set_env_prefix(&mut instance, "TEST_");
    let f_test_match = viperus::get::<bool>(&mut instance, "match").unwrap();
    assert_eq!(true, f_test_match);
    viperus::cache(&mut instance, true);
    let f_test_match = viperus::get::<bool>(&mut instance, "match").unwrap();
    assert_eq!(true, f_test_match);
    let f_test_match = viperus::get::<bool>(&mut instance, "match").unwrap();
    assert_eq!(true, f_test_match);
}

#[test]
fn precedence_override_clap_config_default() {
    let mut v = Viperus::new();
    v.add_default("k", 1);
    assert_eq!(v.get::<i32>("k"), Some(1));
    v.load_file("c.json", Format::TOML, b"k = 2\n").unwrap();
    assert_eq!(v.get::<i32>("k"), Some(2));
    let mut m = ClapMatches::new();
    m.add_arg("kk", true, Some(String::from("3")));
    v.load_clap(m).unwrap();
    assert_eq!(v.bond_clap("kk", "k"), None);
    assert_eq!(v.get::<i32>("k"), Some(3));
    v.add("k", 4);
    assert_eq!(v.get::<i32>("k"), Some(4));
    assert_eq!(v.get::<String>("missing"), None);
}

#[test]
fn clap_default_comes_after_config() {
    let mut v = Viperus::new();
    let mut m = ClapMatches::new();
    m.add_arg("url", false, Some(String::from("http://default")));
    m.add_arg("flag", false, Some(String::from("not a bool")));
    v.load_clap(m).unwrap();
    v.bond_clap("url", "service.url");
    v.bond_clap("flag", "service.flag");
    assert_eq!(v.get::<String>("service.url"), Some(String::from("http://default")));
    assert_eq!(v.get::<bool>("service.flag"), None);
    v.load_file("c.yaml", Format::YAML, b"service:\n  url: http://config\n").unwrap();
    assert_eq!(v.get::<String>("service.url"), Some(String::from("http://config")));
    assert_eq!(v.get::<String>("url"), Some(String::from("http://default")));
}

#[test]
fn bond_clap_returns_previous_bond() {
    let mut v = Viperus::new();
    assert_eq!(v.bond_clap("a", "key"), None);
    assert_eq!(v.bond_clap("b", "key"), Some(String::from("a")));
}

#[test]
fn cache_keeps_first_answer_until_cleared() {
    let mut v = Viperus::new();
    v.add_default("k", 1);
    v.cache(true);
    assert_eq!(v.get::<i32>("k"), Some(1));
    v.add("k", 2);
    assert_eq!(v.get::<i32>("k"), Some(1));
    v.cache(true);
    assert_eq!(v.get::<i32>("k"), Some(2));
    v.cache(false);
    v.add("k", 3);
    assert_eq!(v.get::<i32>("k"), Some(3));
}

#[test]
fn cached_text_value_is_stored_typed() {
    let mut v = Viperus::new();
    v.add("n", String::from("12"));
    v.cache(true);
    assert_eq!(v.get::<i32>("n"), Some(12));
    assert_eq!(v.get::<i32>("n"), Some(12));
}

#[test]
fn global_cache_returns_previous_state() {
    let mut v = Viperus::new();
    assert_eq!(viperus::cache(&mut v, true), false);
    assert_eq!(viperus::cache(&mut v, true), true);
    assert_eq!(viperus::cache(&mut v, false), true);
    assert!(!v.cache_enabled());
}

#[test]
fn automatic_env_uses_the_given_value() {
    let mut v = Viperus::new();
    viperus::set_env_prefix(&mut v, "TEST_");
    viperus::automatic_env(&mut v, true);
    assert_eq!(v.env_key("match"), "TEST_MATCH");
    assert_eq!(v.get_with_env::<bool>("match", Some(String::from("true"))), Some(true));
    assert_eq!(v.get_with_env::<bool>("match", Some(String::from("maybe"))), None);
    v.add_default("match", false);
    assert_eq!(v.get_with_env::<bool>("match", None), Some(false));
    assert_eq!(v.get_with_env::<bool>("match", Some(String::from("true"))), Some(true));
    v.add("match", false);
    assert_eq!(v.get_with_env::<bool>("match", Some(String::from("true"))), Some(false));
    viperus::automatic_env(&mut v, false);
    v.add_default("other", 5);
    assert_eq!(v.get_with_env::<i32>("other", Some(String::from("6"))), Some(5));
}

#[test]
fn automatic_env_reads_the_given_environment() {
    let mut v = Viperus::new();
    v.set_environment(&vec![(String::from("TEST_MATCH"), String::from("true"))]);
    v.set_env_prefix("TEST_");
    assert_eq!(v.get::<bool>("match"), None);
    v.automatic_env(true);
    assert!(v.automatic_env_enabled());
    assert_eq!(v.get::<bool>("match"), Some(true));
    assert_eq!(v.get::<String>("other"), None);
}

#[test]
fn env_file_loads_the_environment_and_reloads() {
    let mut v = Viperus::new();
    v.set_environment(&vec![(String::from("TEST_BOOL"), String::from("true"))]);
    v.load_file("/work/.env", Format::ENV, b"").unwrap();
    v.load_file("b.json", Format::JSON, b"{\"TEST_BOOL\": \"false\"}").unwrap();
    assert_eq!(v.get::<bool>("TEST_BOOL"), Some(false));
    v.set_environment(&vec![(String::from("ONLY"), String::from("1"))]);
    v.reload(&vec![Some(Vec::new()), None]).unwrap();
    assert_eq!(v.get::<bool>("TEST_BOOL"), None);
    assert_eq!(v.get::<i32>("ONLY"), Some(1));
    assert_eq!(
        v.loaded_file_names(),
        vec![String::from("/work/.env"), String::from("b.json")]
    );
}

#[test]
fn load_file_errors() {
    let mut v = Viperus::new();
    match v.load_file("x", Format::Auto, b"") {
        Err(e) => assert_eq!(e.message(), "Generic Error: Format not implemented"),
        Ok(()) => panic!("Auto is refused"),
    }
    assert!(v.loaded_file_names().is_empty());
    assert!(v.load_file("x.json", Format::JSON, b"{ nope").is_err());
    assert!(v.loaded_file_names().is_empty());
    assert!(v.load_file("y.json", Format::JSON, &[0xff, 0xfe]).is_err());
    assert!(v.loaded_file_names().is_empty());
    assert!(v.load_file("z.properties", Format::JAVAPROPERTIES, b"a=\\u1").is_err());
    assert_eq!(v.get::<String>("a"), None);
    assert!(v.loaded_file_names().is_empty());
    v.load_file("p.properties", Format::JAVAPROPERTIES, b"a=1\n").unwrap();
    assert_eq!(v.loaded_file_names(), vec![String::from("p.properties")]);
}

#[test]
fn reload_replaces_configuration() {
    let mut v = Viperus::new();
    v.load_file("a.toml", Format::TOML, b"x = 1\ny = 1\n").unwrap();
    v.add("o", true);
    let contents = vec![Some(b"x = 2\n".to_vec())];
    v.reload(&contents).unwrap();
    assert_eq!(v.get::<i32>("x"), Some(2));
    assert_eq!(v.get::<i32>("y"), None);
    assert_eq!(v.get::<bool>("o"), Some(true));
    assert_eq!(v.loaded_file_names(), vec![String::from("a.toml")]);
    let contents = vec![None];
    v.reload(&contents).unwrap();
    assert_eq!(v.get::<i32>("x"), None);
}

#[test]
fn load_adapter_reports_parse_errors() {
    let mut v = Viperus::new();
    let mut a = viperus::JsonAdapter::new();
    a.load_str("not json").unwrap();
    assert!(v.load_adapter(&mut a).is_err());
    let mut b = viperus::JsonAdapter::new();
    b.load_str("{\"k\": \"v\"}").unwrap();
    v.load_adapter(&mut b).unwrap();
    assert_eq!(v.get::<String>("k"), Some(String::from("v")));
}

#[test]
fn merge_parsed_merges_only_on_success() {
    let mut v = Viperus::new();
    let mut m = ViperusMap::new();
    m.add_value("k", viperus::ViperusValue::I32(7));
    let failed = v.merge_parsed(Err(ViperusError::Generic(String::from("bad"))), &m);
    assert!(failed.is_err());
    assert_eq!(v.get::<i32>("k"), None);
    assert!(v.merge_parsed(Ok(()), &m).is_ok());
    assert_eq!(v.get::<i32>("k"), Some(7));
}

#[test]
fn adapters_load_from_readers() {
    let mut t = viperus::TomlAdapter::new();
    t.load(&mut &b"[a]\nb = 5\n"[..]).unwrap();
    t.parse().unwrap();
    assert_eq!(t.get_map().get::<i32>("a.b"), Some(5));
    let mut y = viperus::YamlAdapter::new();
    y.load(&mut &b"a:\n  b: hello\n"[..]).unwrap();
    y.parse().unwrap();
    assert_eq!(y.get_map().get::<String>("a.b"), Some(String::from("hello")));
}
