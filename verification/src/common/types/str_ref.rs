//! Zero-copy borrowed string value for use in a [`crate::context::Context`].
//!
//! `StrRef<'a>` wraps a `&'a str` without allocating. It reports the same CEL
//! type as [`super::string::String`] and works with owned strings in every
//! string operation: comparison, concatenation, `contains`, `startsWith`,
//! `endsWith`, equality.
use vstd::prelude::*;
use core::cmp::Ordering;
use std::string::String as StdString;
use crate::common::order::{compare_bytes, lex_sign, order_sign, ordering_of_sign};
use crate::common::text::{concat_str, str_equal};
use crate::common::types::bytes::is_unsupported_operator;
use crate::common::types::string::String as CelString;
use crate::common::types::{Kind, Type};
use crate::common::value::{AnyVal, CelValue, Val};
use crate::error::ExecutionError;
use vstd::utf8::encode_utf8;

verus! {

/// A zero-copy, borrowed string CEL value.
#[derive(Clone, Copy, Debug)]
pub struct StrRef<'a>(pub &'a str);

impl<'a> View for StrRef<'a> {
    type V = Seq<char>;

    open spec fn view(&self) -> Seq<char> {
        self.0@
    }
}

impl<'a> StrRef<'a> {
    pub fn new(s: &'a str) -> (r: StrRef<'a>)
        ensures
            r.0 == s,
    {
        StrRef(s)
    }

    pub fn inner(&self) -> (s: &'a str)
        ensures
            s == self.0,
    {
        self.0
    }

    /// The string itself, as it is written out.
    pub fn to_display_string(&self) -> (s: StdString)
        ensures
            s@ == self@,
    {
        self.0.to_owned()
    }

    /// Concatenation: `self` followed by `rhs`, where `rhs` is a string
    /// (owned or borrowed); the result is owned. Any other operand is refused
    /// with the error of an unsupported `add`.
    pub fn add(&self, rhs: &AnyVal<'_>) -> (r: Result<CelString, ExecutionError>)
        ensures
            match rhs@.text() {
                Some(t) => r matches Ok(v) && v@ == self@ + t,
                None => r matches Err(e) && is_unsupported_operator(
                    e,
                    "add"@,
                    CelValue::Str(self@),
                    rhs@,
                ),
            },
    {
        str_concat(self.0, rhs)
    }

    /// Comparison with another string (owned or borrowed), by the
    /// lexicographic order of their UTF-8 encodings; any other operand has no
    /// such overload.
    pub fn compare(&self, rhs: &AnyVal<'_>) -> (r: Result<Ordering, ExecutionError>)
        ensures
            match rhs@.text() {
                Some(t) => r matches Ok(o) && order_sign(o) == lex_sign(
                    encode_utf8(self@),
                    encode_utf8(t),
                ),
                None => r == Err::<Ordering, ExecutionError>(ExecutionError::NoSuchOverload),
            },
    {
        match rhs.as_str_ref() {
            Some(t) => Ok(ordering_of_sign(compare_bytes(self.0.as_bytes(), t.as_bytes()))),
            None => Err(ExecutionError::NoSuchOverload),
        }
    }

    /// The length of the string in bytes of UTF-8, as a CEL integer.
    pub fn size(&self) -> (r: i64)
        ensures
            r == encode_utf8(self@).len() as i64,
    {
        self.0.as_bytes().len() as i64
    }

    /// Whether the value is the zero value of its type: the empty string.
    pub fn is_zero_value(&self) -> (r: bool)
        ensures
            r == (self@.len() == 0),
    {
        self.0.is_empty()
    }
}

/// Concatenation of strings, shared by borrowed and owned strings: `lhs`
/// followed by `rhs`, where `rhs` is a string. Any other operand is refused
/// with the error of an unsupported `add`.
pub fn str_concat(lhs: &str, rhs: &AnyVal<'_>) -> (r: Result<CelString, ExecutionError>)
    ensures
        match rhs@.text() {
            Some(t) => r matches Ok(v) && v@ == lhs@ + t,
            None => r matches Err(e) && is_unsupported_operator(
                e,
                "add"@,
                CelValue::Str(lhs@),
                rhs@,
            ),
        },
{
    match rhs.as_str_ref() {
        Some(t) => Ok(CelString::from(concat_str(lhs, t))),
        None => Err(
            ExecutionError::UnsupportedBinaryOperator(
                "add",
                AnyVal::String(CelString::from(lhs.to_owned())),
                rhs.clone_as_boxed(),
            ),
        ),
    }
}

impl<'a> Val for StrRef<'a> {
    open spec fn cel_value(&self) -> CelValue {
        CelValue::Str(self@)
    }

    fn get_type(&self) -> (t: Type) {
        Type::new(Kind::String)
    }

    fn as_str_ref(&self) -> (r: Option<&str>) {
        Some(self.0)
    }

    fn as_bytes_ref(&self) -> (r: Option<&[u8]>) {
        None
    }

    fn equals(&self, other: &AnyVal<'_>) -> (r: bool) {
        match other.as_str_ref() {
            Some(s) => str_equal(s, self.0),
            None => false,
        }
    }

    /// Cloning a `StrRef` necessarily allocates: the result is an owned string.
    fn clone_as_boxed(&self) -> (r: AnyVal<'static>) {
        AnyVal::String(CelString::from(self.0.to_owned()))
    }
}

} // verus!
