use viperus::Viperus;

/// The `.env` file holds `TEST_BOOL=true`; once it is loaded into the
/// environment, the program hands the variables over.
#[test]
fn test_global() {
    let mut instance = Viperus::new();
    let old = viperus::cache(&mut instance, false);

    instance.set_environment(&vec![(String::from("TEST_BOOL"), String::from("true"))]);
    viperus::load_file(&mut instance, ".env", viperus::Format::ENV, b"").unwrap();
    let ok = viperus::get::<String>(&mut instance, "TEST_BOOL").unwrap();
    assert_eq!("true", ok);

    viperus::add_default(&mut instance, "default", true);
    assert_eq!(viperus::get::<bool>(&mut instance, "default").unwrap(), true);

    viperus::add(&mut instance, "default", false);

    viperus::cache(&mut instance, old);

    assert_ne!(viperus::get::<bool>(&mut instance, "default").unwrap(), true);
}

/// The environment holds `TEST_MATCH=true`, handed over as the program
/// reads it.
#[test]
fn test_std_env() {
    let mut instance = Viperus::new();
    instance.set_environment(&vec![(String::from("TEST_MATCH"), String::from("true"))]);
    viperus::automatic_env(&mut instance, true);
    viperus::set_env_prefix(&mut instance, "TEST_");

    let f_test_match = viperus::get::<bool>(&mut instance, "match").unwrap();
    assert_eq!(true, f_test_match);
    viperus::cache(&mut instance, true);
    let f_test_match = viperus::get::<bool>(&mut instance, "match").unwrap();
    assert_eq!(true, f_test_match);
    let f_test_match = viperus::get::<bool>(&mut instance, "match").unwrap();
    assert_eq!(true, f_test_match);
}
