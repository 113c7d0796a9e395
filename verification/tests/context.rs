use std::borrow::Cow;

use cel::context::Variables;
use cel::{AnyVal, CelString, Context, Env, StoredValue, StrRef, Val, VariableResolver};

fn text(v: Option<Cow<AnyVal>>) -> Option<std::string::String> {
    v.map(|c| c.as_str_ref().expect("a string").to_string())
}

fn s(t: &str) -> AnyVal<'static> {
    AnyVal::String(CelString::from(t))
}

#[test]
fn read_after_write() {
    let mut ctx = Context::empty();
    ctx.add_variable_from_value("a", s("one"));
    assert_eq!(text(ctx.get_variable("a")), Some("one".to_string()));
    assert!(ctx.get_variable("b").is_none());
}

#[test]
fn later_writes_win() {
    let mut ctx = Context::empty();
    ctx.add_variable_from_value("a", s("one"));
    ctx.add_variable_from_value("b", s("two"));
    ctx.add_variable_from_value("a", s("three"));
    assert_eq!(text(ctx.get_variable("a")), Some("three".to_string()));
    assert_eq!(text(ctx.get_variable("b")), Some("two".to_string()));
}

#[test]
fn add_variable_passes_conversion_errors_on() {
    let mut ctx = Context::empty();
    let r: Result<(), &str> = ctx.add_variable("a", Err("no conversion"));
    assert_eq!(r, Err("no conversion"));
    assert!(ctx.get_variable("a").is_none());
    let r: Result<(), &str> = ctx.add_variable("a", Ok(AnyVal::Int(7)));
    assert_eq!(r, Ok(()));
    assert_eq!(ctx.get_variable("a").unwrap().downcast_ref::<i64>(), Some(&7));
}

#[test]
fn borrowed_variables() {
    let greeting = std::string::String::from("hello, world");
    let value = s("by reference");
    let mut ctx = Context::default();
    ctx.add_variable_borrowed("greeting", AnyVal::StrRef(StrRef::new(&greeting)));
    ctx.add_variable_ref("r", &value);
    assert_eq!(text(ctx.get_variable("greeting")), Some("hello, world".to_string()));
    assert_eq!(text(ctx.get_variable("r")), Some("by reference".to_string()));
    assert!(matches!(ctx.get_variable("greeting"), Some(Cow::Borrowed(_))));
}

#[test]
fn inner_scope_shadows_and_sees_parent() {
    let mut root = Context::empty();
    root.add_variable_from_value("x", s("outer"));
    root.add_variable_from_value("y", s("kept"));
    let mut inner = root.new_inner_scope();
    assert_eq!(text(inner.get_variable("x")), Some("outer".to_string()));
    inner.add_variable_from_value("x", s("inner"));
    assert_eq!(text(inner.get_variable("x")), Some("inner".to_string()));
    assert_eq!(text(inner.get_variable("y")), Some("kept".to_string()));
    assert_eq!(text(root.get_variable("x")), Some("outer".to_string()));
    let deeper = inner.new_inner_scope();
    assert_eq!(text(deeper.get_variable("x")), Some("inner".to_string()));
    assert!(deeper.get_variable("z").is_none());
}

fn fixed(name: &str, value: AnyVal<'static>) -> Variables<'static> {
    let mut v = Variables::new();
    v.insert(name.to_string(), StoredValue::Owned(value));
    v
}

#[test]
fn variables_resolve_what_they_hold() {
    let r = fixed("a", s("held"));
    assert_eq!(text(r.resolve("a")), Some("held".to_string()));
    assert!(matches!(r.resolve("a"), Some(Cow::Borrowed(_))));
    assert!(r.resolve("b").is_none());
}

#[test]
fn resolver_comes_first() {
    let resolver = fixed("a", s("resolved"));
    let mut ctx = Context::empty();
    ctx.add_variable_from_value("a", s("stored"));
    ctx.add_variable_from_value("b", s("stored b"));
    ctx.set_variable_resolver(&resolver);
    assert_eq!(text(ctx.get_variable("a")), Some("resolved".to_string()));
    assert_eq!(text(ctx.get_variable("b")), Some("stored b".to_string()));
    let inner = ctx.new_inner_scope();
    assert_eq!(text(inner.get_variable("a")), Some("resolved".to_string()));
}

#[test]
fn resolved_value_is_used_as_given() {
    let mut ctx = Context::empty();
    ctx.add_variable_from_value("a", s("stored"));
    let given = s("given");
    assert_eq!(text(ctx.get_variable_resolved("a", Some(Cow::Borrowed(&given)))), Some("given".to_string()));
    assert_eq!(text(ctx.get_variable_resolved("a", None)), Some("stored".to_string()));
}

#[test]
fn contexts_with_environments() {
    let ctx = Context::with_env(std::sync::Arc::new(Env::stdlib()));
    assert!(ctx.get_variable("x").is_none());
    let ctx: Context = Context::default();
    assert!(ctx.get_variable("x").is_none());
}

#[test]
fn own_variables_are_lent_not_copied() {
    let mut ctx = Context::empty();
    ctx.add_variable_from_value("a", s("owned"));
    assert!(matches!(ctx.get_variable("a"), Some(Cow::Borrowed(_))));
    let value = s("referenced");
    ctx.add_variable_ref("r", &value);
    match ctx.get_variable("r") {
        Some(Cow::Borrowed(v)) => assert!(std::ptr::eq(v, &value)),
        _ => panic!("expected a borrowed value"),
    }
}

#[test]
fn into_owned_of_a_borrowed_string_copies_it() {
    let greeting = std::string::String::from("hello");
    let mut ctx = Context::empty();
    ctx.add_variable_borrowed("g", AnyVal::StrRef(StrRef::new(&greeting)));
    let owned = ctx.get_variable("g").unwrap().into_owned();
    match owned {
        AnyVal::String(c) => assert_eq!(c.inner(), "hello"),
        other => panic!("expected an owned string, got {:?}", other),
    }
}

#[test]
fn a_new_resolver_replaces_the_old_one() {
    let first = fixed("a", s("first"));
    let second = fixed("b", s("second"));
    let mut ctx = Context::empty();
    ctx.add_variable_from_value("a", s("stored"));
    ctx.set_variable_resolver(&first);
    assert_eq!(text(ctx.get_variable("a")), Some("first".to_string()));
    ctx.set_variable_resolver(&second);
    assert_eq!(text(ctx.get_variable("a")), Some("stored".to_string()));
    assert_eq!(text(ctx.get_variable("b")), Some("second".to_string()));
}

#[test]
fn a_parent_resolver_answers_after_the_child_variables() {
    let resolver = fixed("a", s("resolved"));
    let mut root = Context::empty();
    root.set_variable_resolver(&resolver);
    let mut inner = root.new_inner_scope();
    assert_eq!(text(inner.get_variable("a")), Some("resolved".to_string()));
    inner.add_variable_from_value("a", s("inner"));
    assert_eq!(text(inner.get_variable("a")), Some("inner".to_string()));
    assert_eq!(text(root.get_variable("a")), Some("resolved".to_string()));
}

#[test]
fn a_resolver_answer_is_handed_on_as_it_is() {
    let resolver = fixed("a", s("resolved"));
    let mut ctx = Context::empty();
    ctx.add_variable_from_value("a", s("stored"));
    ctx.set_variable_resolver(&resolver);
    let direct = match resolver.resolve("a") {
        Some(Cow::Borrowed(v)) => v,
        _ => panic!("expected a borrowed answer"),
    };
    match ctx.get_variable("a") {
        Some(Cow::Borrowed(v)) => assert!(std::ptr::eq(v, direct)),
        _ => panic!("expected the resolver's borrowed answer"),
    }
    let inner = ctx.new_inner_scope();
    match inner.get_variable("a") {
        Some(Cow::Borrowed(v)) => assert!(std::ptr::eq(v, direct)),
        _ => panic!("expected the resolver's borrowed answer"),
    }
}
