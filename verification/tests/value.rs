use viperus::value::{parse_bool, parse_i32};
use viperus::{ConfigValue, ViperusValue};

#[test]
fn valid_cast_mv2bool() {
    let mv = ViperusValue::BOOL(true);
    let b: bool = ConfigValue::from_value(mv);
    assert!(b);
}

#[test]
fn valid_cast_str2mv() {
    let mv = ViperusValue::from("hello world!");
    match mv {
        ViperusValue::Str(s) => assert_eq!(s, "hello world!"),
        _ => panic!("something very wrong"),
    }

    let refmv = ViperusValue::from(&("hello world!".to_owned()));
    match refmv {
        ViperusValue::Str(s) => assert_eq!(s, "hello world!"),
        _ => panic!("something very wrong"),
    }
}

#[test]
fn value_round_trips() {
    assert_eq!(<bool as ConfigValue>::from_value(true.to_value()), true);
    assert_eq!(<i32 as ConfigValue>::from_value((-5i32).to_value()), -5);
    assert_eq!(
        <String as ConfigValue>::from_value(String::from("x").to_value()),
        String::from("x")
    );
    assert_eq!(ViperusValue::from(7), ViperusValue::I32(7));
    assert_eq!(ViperusValue::from(false), ViperusValue::BOOL(false));
    assert_eq!(ViperusValue::from(String::from("s")), ViperusValue::Str(String::from("s")));
}

#[test]
fn value_text_conversions() {
    let t: bool = ConfigValue::from_value(ViperusValue::from("true"));
    assert!(t);
    let n: i32 = ConfigValue::from_value(ViperusValue::from("+12"));
    assert_eq!(n, 12);
    assert_eq!(ViperusValue::I32(3).duplicate(), ViperusValue::I32(3));
    assert_ne!(ViperusValue::I32(3), ViperusValue::Str(String::from("3")));
    assert_ne!(ViperusValue::Empty, ViperusValue::BOOL(false));
}

#[test]
fn parse_bool_accepts_exact_words() {
    assert_eq!(parse_bool("true"), Some(true));
    assert_eq!(parse_bool("false"), Some(false));
    assert_eq!(parse_bool("True"), None);
    assert_eq!(parse_bool("yes"), None);
    assert_eq!(parse_bool(""), None);
    assert_eq!(parse_bool("true "), None);
}

#[test]
fn parse_i32_matches_std() {
    for text in [
        "0", "42", "-42", "+42", "007", "2147483647", "-2147483648", "2147483648", "-2147483649",
        "", "-", "+", "12a", " 1", "99999999999999999999", "+-1", "٣",
    ] {
        assert_eq!(parse_i32(text), text.parse::<i32>().ok(), "text {:?}", text);
    }
}

#[test]
fn parse_text_per_type() {
    assert_eq!(<bool as ConfigValue>::parse_text("false"), Some(false));
    assert_eq!(<i32 as ConfigValue>::parse_text("x"), None);
    assert_eq!(<String as ConfigValue>::parse_text("x"), Some(String::from("x")));
}
