use copilot_sdk::json::{JsonNumber, JsonValue};
use copilot_sdk::strmap::StrMap;

fn text(s: &str) -> JsonValue {
    JsonValue::Str(s.to_string())
}

fn object(members: Vec<(&str, JsonValue)>) -> JsonValue {
    let mut m = StrMap::new();
    for (k, v) in members {
        m.insert(k.to_string(), v);
    }
    JsonValue::Object(m)
}

#[test]
fn map_reads_back_the_last_write() {
    let mut m: StrMap<u32> = StrMap::new();
    assert!(m.is_empty());
    m.insert("a".to_string(), 1);
    m.insert("b".to_string(), 2);
    m.insert("a".to_string(), 3);
    assert_eq!(m.len(), 2);
    assert_eq!(m.get("a"), Some(&3));
    assert_eq!(m.get("b"), Some(&2));
    assert!(!m.contains_key("c"));
    assert_eq!(m.remove("a"), Some(3));
    assert_eq!(m.remove("a"), None);
    assert!(!m.contains_key("a"));
    assert_eq!(m.len(), 1);
    assert_eq!(m.entries().len(), 1);
    assert_eq!(m.entries()[0], ("b".to_string(), 2));
}

#[test]
fn set_field_then_get() {
    let mut v = JsonValue::Null;
    v.set_field("x".to_string(), text("one"));
    assert_eq!(v.get("x"), Some(&text("one")));
    v.set_field("y".to_string(), JsonValue::Bool(true));
    v.set_field("x".to_string(), text("two"));
    assert_eq!(v.get("x"), Some(&text("two")));
    assert_eq!(v.get("y"), Some(&JsonValue::Bool(true)));
    assert_eq!(v.remove_field("y"), Some(JsonValue::Bool(true)));
    assert!(v.get("y").is_none());
    assert!(!v.is_null());

    let mut n = JsonValue::Number(JsonNumber::PosInt(1));
    assert_eq!(n.remove_field("x"), None);
    assert_eq!(n, JsonValue::Number(JsonNumber::PosInt(1)));
    assert!(n.get("x").is_none());
}

#[test]
fn clone_copies_every_level() {
    let v = object(vec![
        ("list", JsonValue::Array(vec![text("a"), JsonValue::Null, object(vec![("n", JsonValue::Number(JsonNumber::NegInt(-4)))])])),
        ("pi", JsonValue::Number(JsonNumber::Float("3.14".to_string()))),
        ("flag", JsonValue::Bool(false)),
    ]);
    let c = v.clone();
    assert_eq!(c, v);
    let d = v.deep_copy();
    assert_eq!(d, v);
    assert_eq!(c.get("list"), v.get("list"));
    assert_eq!(JsonValue::empty_object().get("x"), None);
    assert_eq!(JsonValue::from_text("hi"), text("hi"));
}

#[test]
fn objects_compare_as_maps() {
    let a = object(vec![("x", text("1")), ("y", JsonValue::Bool(true))]);
    let b = object(vec![("y", JsonValue::Bool(true)), ("x", text("1"))]);
    assert_eq!(a, b);
    let c = object(vec![("y", JsonValue::Bool(true)), ("x", text("2"))]);
    assert_ne!(a, c);
    let d = object(vec![("x", text("1"))]);
    assert_ne!(a, d);
    assert_ne!(d, a);
    assert_eq!(JsonValue::Array(vec![a.clone(), JsonValue::Null]), JsonValue::Array(vec![b, JsonValue::Null]));
    assert_ne!(JsonValue::Array(vec![a.clone()]), JsonValue::Array(vec![a.clone(), a]));
    // integers compare by value, whichever variant holds them
    assert_eq!(JsonValue::Number(JsonNumber::PosInt(1)), JsonValue::Number(JsonNumber::NegInt(1)));
    assert_ne!(JsonValue::Number(JsonNumber::PosInt(1)), JsonValue::Number(JsonNumber::NegInt(-1)));
    assert_ne!(JsonNumber::NegInt(-1), JsonNumber::PosInt(u64::MAX));
    assert_ne!(JsonValue::Number(JsonNumber::Float("1.5".to_string())), JsonValue::Number(JsonNumber::PosInt(1)));
    assert_eq!(JsonNumber::Float("1.5".to_string()), JsonNumber::Float("1.5".to_string()));
    assert_ne!(text("1"), JsonValue::Number(JsonNumber::PosInt(1)));
}
