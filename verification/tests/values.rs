use fusion::ffi::{boolean_word, nul_terminated, FfiValueType};
use fusion::lexical::{is_float_text, parse_bool, parse_i32, parse_u32};
use fusion::value::{Array, Enum, LocalizationKey, Str, Value};

fn items(v: &Value) -> &Vec<Value> {
    match v {
        Value::Array(a) => &a.0,
        _ => panic!("not an array"),
    }
}

#[test]
fn integers_follow_std() {
    for s in ["0", "42", "-7", "+13", "2147483647", "-2147483648", "007", "", "-", "+", "1_000", " 1", "1 ", "2147483648", "abc"] {
        assert_eq!(parse_i32(s), s.parse::<i32>().ok(), "i32 {s:?}");
    }
    for s in ["0", "4294967295", "4294967296", "+5", "-0", "-5", "99999999999999999999", "1.0"] {
        assert_eq!(parse_u32(s), s.parse::<u32>().ok(), "u32 {s:?}");
    }
}

#[test]
fn booleans_follow_std() {
    for s in ["true", "false", "True", "FALSE", "", "tru", "truee"] {
        assert_eq!(parse_bool(s), s.parse::<bool>().ok(), "bool {s:?}");
    }
}

#[test]
fn float_texts_follow_std() {
    for s in [
        "1.5", ".5", "5.", "1e5", "1E-5", "+2.5e+10", "-inf", "INF", "Infinity", "nan", "NaN",
        "-nan", "e5", ".", "1e", "1e+", "1.2.3", "", "inf1", "0x10", "1 ", " 1", "infinit",
        "12", "+", "-.5", "5.e3", "..5",
    ] {
        assert_eq!(is_float_text(s), s.parse::<f32>().is_ok(), "f32 {s:?}");
    }
}

#[test]
fn value_forms_in_order() {
    assert!(matches!(Value::from_str("-12"), Value::Integer(-12)));
    assert!(matches!(Value::from_str("3000000000"), Value::UnsignedInteger(3000000000)));
    assert!(matches!(Value::from_str("5000000000"), Value::Float(ref t) if t == "5000000000"));
    assert!(matches!(Value::from_str("2.5"), Value::Float(ref t) if t == "2.5"));
    assert!(matches!(Value::from_str("true"), Value::Boolean(true)));
    assert!(matches!(Value::from_str("$title"), Value::LocalizationKey(ref k) if k.0 == "title"));
    assert!(matches!(Value::from_str("Dark_Mode"), Value::Enumeration(ref e) if e.0 == "Dark_Mode"));
    assert!(matches!(Value::from_str("\"a, b\""), Value::String(ref s) if s.0 == "a, b"));
    assert!(matches!(Value::from_str("inf"), Value::Float(_)));
}

#[test]
fn arrays_split_on_commas() {
    let v = Value::from_str("1,Left,$key");
    let it = items(&v);
    assert_eq!(it.len(), 3);
    assert!(matches!(it[0], Value::Integer(1)));
    assert!(matches!(it[1], Value::Enumeration(ref e) if e.0 == "Left"));
    assert!(matches!(it[2], Value::LocalizationKey(ref k) if k.0 == "key"));
    let nested = Array::from_str("a,\"b\",2.0").unwrap();
    assert_eq!(nested.0.len(), 3);
    assert!(Value::parse("a,b,").is_none());
}

#[test]
fn unreadable_values_are_reported() {
    assert!(Value::parse("hello world").is_none());
    assert!(Value::parse("").is_none());
    assert!(Value::parse("\"").is_none());
    assert!(Value::parse("a,hello world").is_none());
    assert!(Value::parse("x,y").is_some());
}

#[test]
fn localization_keys_strings_and_enums() {
    assert_eq!(LocalizationKey::from_str("$").unwrap().0, "");
    assert!(LocalizationKey::from_str("key").is_err());
    assert_eq!(Str::from_str("\"\"").unwrap().0, "");
    assert!(Str::from_str("\"open").is_err());
    assert_eq!(Enum::from_str("_x9").unwrap().0, "_x9");
    assert!(Enum::from_str("9x").is_err());
    assert!(Enum::from_str("a-b").is_err());
    assert!(Enum::from_str("ab\n").is_err());
    assert!(Enum::from_str("").is_err());
    assert!(Enum::from_match("anything", true).is_ok());
    assert!(Enum::from_match("Left", false).is_err());
}

#[test]
fn enum_markers() {
    assert_eq!(Value::from_str("Left").as_enum(), "enum");
    assert_eq!(Value::from_str("Left,Right,Top").as_array_of_enum(), vec!["enum", "enum", "enum"]);
}

#[test]
fn law_array_item_count_example() {
    assert_eq!(items(&Value::from_str("1,2,3,4")).len(), 4);
    assert_eq!(items(&Value::from_str("a,b")).len(), 2);
}

#[test]
fn law_dollar_and_quotes_examples() {
    assert!(matches!(Value::from_str("$1,2"), Value::LocalizationKey(ref k) if k.0 == "1,2"));
    assert!(matches!(Value::from_str("\"1,2\""), Value::String(ref s) if s.0 == "1,2"));
    assert!(matches!(Value::from_str("nanny"), Value::Enumeration(_)));
    assert!(matches!(Value::from_str("NAN"), Value::Float(_)));
}

#[test]
fn ffi_kinds_and_strings() {
    assert_eq!(FfiValueType::of(&Value::from_str("1")).tag(), 0);
    assert_eq!(FfiValueType::of(&Value::from_str("4000000000")).tag(), 1);
    assert_eq!(FfiValueType::of(&Value::from_str("1.5")).tag(), 2);
    assert_eq!(FfiValueType::of(&Value::from_str("false")).tag(), 3);
    assert_eq!(FfiValueType::of(&Value::from_str("Left")).tag(), 4);
    assert_eq!(FfiValueType::of(&Value::from_str("$k")).tag(), 5);
    assert_eq!(FfiValueType::of(&Value::from_str("\"s\"")).tag(), 6);
    assert_eq!(FfiValueType::of(&Value::from_str("1,2")).tag(), 7);
    assert_eq!(boolean_word(true), 1);
    assert_eq!(boolean_word(false), 0);
    assert_eq!(nul_terminated("hé"), vec![b'h', 0xc3, 0xa9, 0]);
    assert_eq!(nul_terminated(""), vec![0]);
}
