use std::borrow::Cow;

use cel::common::types::string::String;
use cel::{AnyVal, Context, Kind, Type, Val};

type StdString = std::string::String;

#[test]
fn test_try_into_string() {
    let str: AnyVal = AnyVal::String(String::from("cel-rust"));
    assert_eq!(Ok(StdString::from("cel-rust")), str.try_into())
}

#[test]
fn test_try_into_str() {
    let str: AnyVal = AnyVal::String(String::from("cel-rust"));
    assert_eq!(Ok("cel-rust"), (&str).try_into())
}

fn test(val: &AnyVal) -> bool {
    val.get_type() == Type::new(Kind::String)
}

#[test]
fn test_cow() {
    let s1 = String::from("cel");
    let s2 = AnyVal::String(String::from("cel"));
    let b: AnyVal = AnyVal::String(s1);
    let cow: Cow<AnyVal> = Cow::Owned(b);
    let borrowed: Cow<AnyVal> = Cow::Borrowed(&s2);
    assert!(test(borrowed.as_ref()));
    assert!(test(cow.as_ref()));
    assert!(test(borrowed.clone().as_ref()));
    assert_eq!(cow.downcast_ref::<String>().unwrap().inner(), "cel");
    let boxed = cow.into_owned();
    let s = boxed.downcast_ref::<String>().unwrap().inner().to_string();
    assert_eq!(s.as_str(), "cel");
}

fn assert_send<T: Send>() {}

#[test]
fn test_context_is_send() {
    assert_send::<Context>();
}
