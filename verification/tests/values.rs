use std::cmp::Ordering;

use cel::{AnyVal, Bytes, BytesRef, CelString, ExecutionError, Kind, StrRef, Type, Val};

#[test]
fn string_add_concatenates_owned_and_borrowed() {
    let a = CelString::from("ab");
    let r = a.add(&AnyVal::StrRef(StrRef::new("cd"))).unwrap();
    assert_eq!(r.inner(), "abcd");
    let r = StrRef::new("x").add(&AnyVal::String(CelString::from("yz"))).unwrap();
    assert_eq!(r.inner(), "xyz");
}

#[test]
fn string_add_refuses_other_kinds() {
    let a = CelString::from("ab");
    match a.add(&AnyVal::Int(3)) {
        Err(ExecutionError::UnsupportedBinaryOperator(op, lhs, rhs)) => {
            assert_eq!(op, "add");
            assert_eq!(lhs, AnyVal::String(CelString::from("ab")));
            assert_eq!(rhs, AnyVal::Int(3));
        }
        other => panic!("unexpected {:?}", other),
    }
}

#[test]
fn bytes_add_concatenates() {
    let a = Bytes::from(vec![1u8, 2]);
    let tail = [3u8];
    let r = a.add(&AnyVal::BytesRef(BytesRef::new(&tail))).unwrap();
    assert_eq!(r.inner(), &[1u8, 2, 3][..]);
    let r = BytesRef::new(&[9u8]).add(&AnyVal::Bytes(Bytes::from(vec![]))).unwrap();
    assert_eq!(r.into_inner(), vec![9u8]);
}

#[test]
fn bytes_add_refuses_strings() {
    let a = BytesRef::new(&[1u8]);
    match a.add(&AnyVal::StrRef(StrRef::new("s"))) {
        Err(ExecutionError::UnsupportedBinaryOperator(op, lhs, rhs)) => {
            assert_eq!(op, "add");
            assert_eq!(lhs, AnyVal::Bytes(Bytes::from(vec![1u8])));
            assert_eq!(rhs, AnyVal::String(CelString::from("s")));
        }
        other => panic!("unexpected {:?}", other),
    }
}

#[test]
fn string_compare_orders_lexicographically() {
    let a = CelString::from("abc");
    assert_eq!(a.compare(&AnyVal::StrRef(StrRef::new("abd"))), Ok(Ordering::Less));
    assert_eq!(a.compare(&AnyVal::StrRef(StrRef::new("ab"))), Ok(Ordering::Greater));
    assert_eq!(a.compare(&AnyVal::StrRef(StrRef::new("abc"))), Ok(Ordering::Equal));
    assert_eq!(StrRef::new("b").compare(&AnyVal::String(CelString::from("a"))), Ok(Ordering::Greater));
    assert_eq!(a.compare(&AnyVal::Int(1)), Err(ExecutionError::NoSuchOverload));
}

#[test]
fn compare_is_antisymmetric() {
    let x = CelString::from("héllo");
    let y = CelString::from("hello");
    let xy = x.compare(&AnyVal::String(y.clone())).unwrap();
    let yx = y.compare(&AnyVal::String(x.clone())).unwrap();
    assert_eq!(xy, yx.reverse());
    assert_eq!(xy, Ordering::Greater);
}

#[test]
fn bytes_compare_orders_lexicographically() {
    let a = Bytes::from(vec![1u8, 2]);
    assert_eq!(a.compare(&AnyVal::Bytes(Bytes::from(vec![1u8, 3]))), Ok(Ordering::Less));
    assert_eq!(a.compare(&AnyVal::BytesRef(BytesRef::new(&[1u8]))), Ok(Ordering::Greater));
    assert_eq!(BytesRef::new(&[1u8, 2]).compare(&AnyVal::Bytes(a.clone())), Ok(Ordering::Equal));
    assert_eq!(a.compare(&AnyVal::Null), Err(ExecutionError::NoSuchOverload));
}

#[test]
fn size_counts_utf8_bytes() {
    assert_eq!(CelString::from("héllo").size(), 6);
    assert_eq!(StrRef::new("").size(), 0);
    assert_eq!(Bytes::from(vec![0u8; 4]).size(), 4);
    assert_eq!(BytesRef::new(&[]).size(), 0);
}

#[test]
fn zero_values_are_empty() {
    assert!(CelString::from("").is_zero_value());
    assert!(!CelString::from("a").is_zero_value());
    assert!(StrRef::new("").is_zero_value());
    assert!(Bytes::from(vec![]).is_zero_value());
    assert!(!BytesRef::new(&[0u8]).is_zero_value());
}

#[test]
fn equals_ignores_ownership() {
    let owned = AnyVal::String(CelString::from("x"));
    let borrowed = AnyVal::StrRef(StrRef::new("x"));
    assert!(owned.equals(&borrowed));
    assert!(borrowed.equals(&owned));
    assert_eq!(owned, borrowed);
    assert!(!owned.equals(&AnyVal::StrRef(StrRef::new("y"))));
    let data = [1u8, 2];
    assert!(AnyVal::Bytes(Bytes::from(vec![1u8, 2])).equals(&AnyVal::BytesRef(BytesRef::new(&data))));
    assert!(!AnyVal::Bytes(Bytes::from(vec![])).equals(&AnyVal::String(CelString::from(""))));
    assert!(AnyVal::Int(1).equals(&AnyVal::Int(1)));
    assert!(!AnyVal::Int(1).equals(&AnyVal::UInt(1)));
    assert!(AnyVal::Null.equals(&AnyVal::Null));
}

#[test]
fn types_of_values() {
    assert_eq!(StrRef::new("a").get_type(), Type::new(Kind::String));
    assert_eq!(BytesRef::new(&[]).get_type().name(), "bytes");
    assert_eq!(AnyVal::UInt(1).get_type().name(), "uint");
    assert_eq!(AnyVal::Null.get_type().name(), "null_type");
    assert_eq!(CelString::from("a").get_type().kind(), Kind::String);
}

#[test]
fn clone_as_boxed_owns_a_copy() {
    let s = std::string::String::from("abc");
    let v = StrRef::new(&s).clone_as_boxed();
    assert!(matches!(v, AnyVal::String(_)));
    assert_eq!(v.as_str_ref(), Some("abc"));
    let b = BytesRef::new(&[7u8]).clone_as_boxed();
    assert!(matches!(b, AnyVal::Bytes(_)));
    assert_eq!(b.as_bytes_ref(), Some(&[7u8][..]));
}

#[test]
fn downcast_only_owned_values() {
    let owned = AnyVal::String(CelString::from("x"));
    assert_eq!(owned.downcast_ref::<CelString>().map(|s| s.inner()), Some("x"));
    let borrowed = AnyVal::StrRef(StrRef::new("x"));
    assert!(borrowed.downcast_ref::<CelString>().is_none());
    assert_eq!(AnyVal::Int(5).downcast_ref::<i64>(), Some(&5));
    assert_eq!(AnyVal::Int(5).downcast_ref::<u64>(), None);
    assert_eq!(AnyVal::Bool(true).downcast_ref::<bool>(), Some(&true));
    assert!(AnyVal::Bytes(Bytes::from(vec![1u8])).downcast_ref::<Bytes>().is_some());
}

#[test]
fn display_strings() {
    assert_eq!(BytesRef::new(&[1u8, 2, 255]).to_display_string(), "[1, 2, 255]");
    assert_eq!(BytesRef::new(&[]).to_display_string(), "[]");
    assert_eq!(BytesRef::new(&[0u8]).to_display_string(), "[0]");
    assert_eq!(StrRef::new("hi").to_display_string(), "hi");
}

#[test]
fn conversions() {
    let b = Bytes::from(vec![1u8, 2]);
    let v: Vec<u8> = b.into();
    assert_eq!(v, vec![1u8, 2]);
    let s: std::string::String = CelString::from(std::string::String::from("q")).into();
    assert_eq!(s, "q");
    let bytes: Result<Vec<u8>, AnyVal> = AnyVal::Bytes(Bytes::from(vec![3u8])).try_into();
    assert_eq!(bytes.unwrap(), vec![3u8]);
    let refused: Result<Vec<u8>, AnyVal> = AnyVal::BytesRef(BytesRef::new(&[3u8])).try_into();
    assert!(refused.is_err());
    let val = AnyVal::BytesRef(BytesRef::new(&[4u8]));
    let slice: Result<&[u8], &AnyVal> = (&val).try_into();
    assert_eq!(slice.unwrap(), &[4u8][..]);
    let not_string: Result<std::string::String, AnyVal> = AnyVal::StrRef(StrRef::new("a")).try_into();
    assert!(not_string.is_err());
    let text = AnyVal::StrRef(StrRef::new("a"));
    let as_str: Result<&str, &AnyVal> = (&text).try_into();
    assert_eq!(as_str.unwrap(), "a");
    assert_eq!(&*CelString::from("deref"), "deref");
    assert_eq!(&*Bytes::from(vec![5u8]), &[5u8][..]);
}
