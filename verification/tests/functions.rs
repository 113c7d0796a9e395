use cel::common::types::bytes::{bytes_to_bytes, string_to_bytes};
use cel::common::types::string::{ends_with_string, starts_with_string, string, string_contains};
use cel::{AnyVal, Bytes, BytesRef, CelString, ExecutionError, StrRef, Val};

fn s(text: &str) -> AnyVal<'static> {
    AnyVal::String(CelString::from(text))
}

fn as_bool(r: Result<AnyVal, ExecutionError>) -> bool {
    match r {
        Ok(AnyVal::Bool(b)) => b,
        other => panic!("expected a bool, got {:?}", other),
    }
}

fn text_of(r: Result<AnyVal, ExecutionError>) -> std::string::String {
    match r {
        Ok(v) => v.as_str_ref().expect("a string").to_string(),
        Err(e) => panic!("expected a string, got {:?}", e),
    }
}

#[test]
fn contains_finds_substrings() {
    assert!(as_bool(string_contains(vec![s("hello world"), s("lo w")])));
    assert!(!as_bool(string_contains(vec![s("hello"), s("world")])));
    assert!(as_bool(string_contains(vec![s("hello"), s("")])));
    assert!(as_bool(string_contains(vec![AnyVal::StrRef(StrRef::new("héllo")), s("é")])));
    assert!(!as_bool(string_contains(vec![s("ab"), s("abc")])));
}

#[test]
fn contains_rejects_non_strings() {
    assert_eq!(
        string_contains(vec![AnyVal::Int(1), s("a")]),
        Err(ExecutionError::UnexpectedType { got: "int".to_string(), want: "string".to_string() })
    );
    assert_eq!(
        string_contains(vec![s("a"), AnyVal::Bytes(Bytes::from(vec![]))]),
        Err(ExecutionError::UnexpectedType { got: "bytes".to_string(), want: "string".to_string() })
    );
}

#[test]
fn starts_and_ends_with() {
    assert!(as_bool(starts_with_string(vec![s("foobar"), s("foo")])));
    assert!(!as_bool(starts_with_string(vec![s("foobar"), s("bar")])));
    assert!(as_bool(ends_with_string(vec![s("foobar"), s("bar")])));
    assert!(!as_bool(ends_with_string(vec![s("foobar"), s("foo")])));
    assert!(as_bool(ends_with_string(vec![s("x"), s("")])));
    assert_eq!(
        starts_with_string(vec![AnyVal::Null, AnyVal::Null]),
        Err(ExecutionError::UnexpectedType { got: "null_type".to_string(), want: "string".to_string() })
    );
    assert_eq!(
        ends_with_string(vec![s("x"), AnyVal::Bool(true)]),
        Err(ExecutionError::UnexpectedType { got: "bool".to_string(), want: "string".to_string() })
    );
}

#[test]
fn starts_with_implies_contains() {
    for (t, p) in [("abcdef", "abc"), ("héllo", "hé"), ("", "")] {
        assert!(as_bool(starts_with_string(vec![s(t), s(p)])));
        assert!(as_bool(string_contains(vec![s(t), s(p)])));
    }
}

#[test]
fn matches_runs_regexes() {
    assert!(as_bool(cel::common::types::string::matches(vec![s("abc"), s("a.c")])));
    assert!(as_bool(cel::common::types::string::matches(vec![s("xxabcxx"), s("b")])));
    assert!(!as_bool(cel::common::types::string::matches(vec![s("abc"), s("^b")])));
    assert!(as_bool(cel::common::types::string::matches(vec![AnyVal::StrRef(StrRef::new("2024-01-02")), s(r"^\d{4}-\d{2}-\d{2}$")])));
}

#[test]
fn matches_reports_invalid_patterns() {
    match cel::common::types::string::matches(vec![s("abc"), s("(")]) {
        Err(ExecutionError::FunctionError { function, message }) => {
            assert_eq!(function, "matches");
            assert!(message.starts_with("'(' not a valid regex:\n"));
            assert!(message.len() > "'(' not a valid regex:\n".len());
        }
        other => panic!("unexpected {:?}", other),
    }
    assert_eq!(
        cel::common::types::string::matches(vec![AnyVal::UInt(3), s("a")]),
        Err(ExecutionError::UnexpectedType { got: "uint".to_string(), want: "string".to_string() })
    );
}

#[test]
fn string_of_integers() {
    assert_eq!(text_of(string(vec![AnyVal::Int(-42)])), "-42");
    assert_eq!(text_of(string(vec![AnyVal::Int(0)])), "0");
    assert_eq!(text_of(string(vec![AnyVal::Int(i64::MIN)])), "-9223372036854775808");
    assert_eq!(text_of(string(vec![AnyVal::Int(i64::MAX)])), "9223372036854775807");
    assert_eq!(text_of(string(vec![AnyVal::UInt(u64::MAX)])), "18446744073709551615");
    assert_eq!(text_of(string(vec![AnyVal::UInt(1000)])), "1000");
}

#[test]
fn string_of_bytes_decodes_utf8() {
    assert_eq!(text_of(string(vec![AnyVal::Bytes(Bytes::from("héllo".as_bytes().to_vec()))])), "héllo");
    assert_eq!(text_of(string(vec![AnyVal::BytesRef(BytesRef::new(&[0x61, 0xff, 0x62]))])), "a\u{FFFD}b");
}

#[test]
fn string_of_string_is_the_argument() {
    let r = string(vec![AnyVal::StrRef(StrRef::new("keep"))]).unwrap();
    assert!(matches!(r, AnyVal::StrRef(_)));
    assert_eq!(r.as_str_ref(), Some("keep"));
}

#[test]
fn string_refuses_other_kinds() {
    assert_eq!(
        string(vec![AnyVal::Bool(true)]),
        Err(ExecutionError::FunctionError {
            function: "string".to_string(),
            message: "cannot convert Bool(true) to string".to_string()
        })
    );
    assert_eq!(
        string(vec![AnyVal::Null]),
        Err(ExecutionError::FunctionError {
            function: "string".to_string(),
            message: "cannot convert Null to string".to_string()
        })
    );
}

#[test]
fn bytes_of_strings() {
    let r = string_to_bytes(vec![s("hé")]).unwrap();
    assert_eq!(r.as_bytes_ref(), Some(&[104u8, 195, 169][..]));
    assert_eq!(
        string_to_bytes(vec![AnyVal::Int(1)]),
        Err(ExecutionError::UnexpectedType { got: "int".to_string(), want: "Bytes".to_string() })
    );
    let r = bytes_to_bytes(vec![AnyVal::BytesRef(BytesRef::new(&[1u8]))]).unwrap();
    assert!(matches!(r, AnyVal::BytesRef(_)));
}

#[test]
fn string_bytes_round_trip() {
    for t in ["", "plain", "héllo wörld", "日本語", "🙂"] {
        let b = string_to_bytes(vec![s(t)]).unwrap();
        assert_eq!(text_of(string(vec![b])), t);
    }
}

#[test]
fn matches_outcome_reports_the_compile_error() {
    match cel::common::types::string::matches_outcome("(", Err("boom".to_string())) {
        Err(cel::ExecutionError::FunctionError { function, message }) => {
            assert_eq!(function, "matches");
            assert_eq!(message, "'(' not a valid regex:\nboom");
        }
        other => panic!("unexpected outcome {:?}", other),
    }
    assert!(matches!(cel::common::types::string::matches_outcome("a", Ok(true)), Ok(AnyVal::Bool(true))));
    assert!(matches!(cel::common::types::string::matches_outcome("a", Ok(false)), Ok(AnyVal::Bool(false))));
}

#[test]
fn a_copy_of_a_borrowed_string_is_owned() {
    let text = std::string::String::from("cel");
    let v = AnyVal::StrRef(StrRef::new(&text));
    match v.clone() {
        AnyVal::String(c) => assert_eq!(c.inner(), "cel"),
        other => panic!("expected an owned string, got {:?}", other),
    }
}
