use cel::env::EnvError;
use cel::{Builtin, Env, Kind, Type};

#[test]
fn standard_environment_has_every_overload() {
    let env = Env::stdlib();
    for id in [
        "string_to_bytes",
        "bytes_to_bytes",
        "size_bytes",
        "bytes_size",
        "string_to_string",
        "int64_to_string",
        "uint64_to_string",
        "double_to_string",
        "bytes_to_string",
        "contains_string",
        "ends_with_string",
        "size_string",
        "string_size",
        "starts_with_string",
        "matches",
    ] {
        assert!(env.contains_id(id), "{id}");
    }
    assert!(!env.contains_id("nothing"));
}

#[test]
fn duplicate_ids_are_refused() {
    let mut env = Env::new();
    assert_eq!(env.add_overload("f", "f_int", vec![Type::new(Kind::Int)], Builtin::Size), Ok(()));
    assert_eq!(
        env.add_member_overload("g", "f_int", Type::new(Kind::String), vec![], Builtin::Size),
        Err(EnvError::DuplicateId("f_int".to_string()))
    );
    assert!(env.contains_id("f_int"));
    assert_eq!(env.add_member_overload("g", "g_string", Type::new(Kind::String), vec![], Builtin::Size), Ok(()));
}
