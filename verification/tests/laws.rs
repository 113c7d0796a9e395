use std::cmp::Ordering;

use cel::common::types::string::{ends_with_string, starts_with_string, string_contains};
use cel::{AnyVal, Bytes, CelString, Context, StrRef, Val};

fn s(t: &str) -> AnyVal<'static> {
    AnyVal::String(CelString::from(t))
}

fn truth(r: Result<AnyVal, cel::ExecutionError>) -> bool {
    matches!(r, Ok(AnyVal::Bool(true)))
}

#[test]
fn concatenation_keeps_its_parts() {
    for (a, b) in [("ab", "cd"), ("", "x"), ("héllo", " wörld"), ("", "")] {
        let joined = CelString::from(a).add(&s(b)).unwrap();
        let j = AnyVal::String(joined.clone());
        assert!(truth(starts_with_string(vec![j.clone(), s(a)])));
        assert!(truth(ends_with_string(vec![j.clone(), s(b)])));
        assert_eq!(joined.size(), CelString::from(a).size() + CelString::from(b).size());
    }
}

#[test]
fn concatenation_is_associative() {
    let ab = CelString::from("a").add(&s("b")).unwrap();
    let ab_c = ab.add(&s("c")).unwrap();
    let bc = CelString::from("b").add(&s("c")).unwrap();
    let a_bc = CelString::from("a").add(&AnyVal::String(bc)).unwrap();
    assert_eq!(ab_c.inner(), a_bc.inner());
}

#[test]
fn contains_itself_and_the_empty_string() {
    for t in ["", "a", "héllo"] {
        assert!(truth(string_contains(vec![s(t), s(t)])));
        assert!(truth(string_contains(vec![s(t), s("")])));
        assert!(truth(starts_with_string(vec![s(t), s("")])));
        assert!(truth(ends_with_string(vec![s(t), s(t)])));
    }
}

#[test]
fn ends_with_implies_contains() {
    assert!(truth(ends_with_string(vec![s("abcdef"), s("def")])));
    assert!(truth(string_contains(vec![s("abcdef"), s("def")])));
}

#[test]
fn zero_value_exactly_when_size_is_zero() {
    for t in ["", "a", "é"] {
        let v = CelString::from(t);
        assert_eq!(v.is_zero_value(), v.size() == 0);
    }
    for b in [vec![], vec![0u8]] {
        let v = Bytes::from(b);
        assert_eq!(v.is_zero_value(), v.size() == 0);
    }
}

#[test]
fn order_agrees_with_equality_and_is_transitive() {
    let a = CelString::from("apple");
    let b = CelString::from("banana");
    let c = CelString::from("cherry");
    assert_eq!(a.compare(&AnyVal::StrRef(StrRef::new("apple"))), Ok(Ordering::Equal));
    assert!(a.equals(&AnyVal::StrRef(StrRef::new("apple"))));
    assert_eq!(a.compare(&AnyVal::String(b.clone())), Ok(Ordering::Less));
    assert_eq!(b.compare(&AnyVal::String(c.clone())), Ok(Ordering::Less));
    assert_eq!(a.compare(&AnyVal::String(c)), Ok(Ordering::Less));
    assert!(!a.equals(&AnyVal::String(b)));
}

#[test]
fn setting_one_variable_leaves_the_others() {
    let mut ctx = Context::empty();
    ctx.add_variable_from_value("a", s("1"));
    ctx.add_variable_from_value("b", s("2"));
    assert_eq!(ctx.get_variable("a").unwrap().as_str_ref(), Some("1"));
    ctx.add_variable_from_value("b", s("3"));
    assert_eq!(ctx.get_variable("a").unwrap().as_str_ref(), Some("1"));
    assert_eq!(ctx.get_variable("b").unwrap().as_str_ref(), Some("3"));
}

#[test]
fn an_empty_inner_scope_sees_what_its_parent_sees() {
    let mut root = Context::empty();
    root.add_variable_from_value("a", s("1"));
    let inner = root.new_inner_scope();
    for name in ["a", "b"] {
        assert_eq!(
            inner.get_variable(name).map(|v| v.as_str_ref().map(|t| t.to_string())),
            root.get_variable(name).map(|v| v.as_str_ref().map(|t| t.to_string()))
        );
    }
}
