//! Zero-copy borrowed bytes value for use in a [`crate::context::Context`].
//!
//! `BytesRef<'a>` wraps a `&'a [u8]` without allocating. It reports the same
//! CEL type as [`super::bytes::Bytes`] and works with owned bytes in every
//! bytes operation: comparison, concatenation, equality.
use vstd::prelude::*;
use core::cmp::Ordering;
use std::string::String as StdString;
use crate::common::order::{compare_bytes, lex_sign, order_sign, ordering_of_sign};
use crate::common::text::{byte_list, byte_list_text, bytes_equal, concat_bytes, copy_bytes};
use crate::common::types::bytes::{is_unsupported_operator, Bytes};
use crate::common::types::{Kind, Type};
use crate::common::value::{AnyVal, CelValue, Val};
use crate::error::ExecutionError;

verus! {

/// A zero-copy, borrowed bytes CEL value.
#[derive(Clone, Copy, Debug)]
pub struct BytesRef<'a>(pub &'a [u8]);

impl<'a> View for BytesRef<'a> {
    type V = Seq<u8>;

    open spec fn view(&self) -> Seq<u8> {
        self.0@
    }
}

impl<'a> BytesRef<'a> {
    pub fn new(b: &'a [u8]) -> (r: BytesRef<'a>)
        ensures
            r.0 == b,
    {
        BytesRef(b)
    }

    pub fn inner(&self) -> (b: &'a [u8])
        ensures
            b == self.0,
    {
        self.0
    }

    /// The bytes written out as a list of decimal numbers, such as "[1, 2]".
    pub fn to_display_string(&self) -> (s: StdString)
        ensures
            s@ == byte_list(self@),
    {
        byte_list_text(self.0)
    }

    /// Concatenation: `self` followed by `rhs`, where `rhs` is bytes (owned or
    /// borrowed); the result is owned. Any other operand is refused with the
    /// error of an unsupported `add`.
    pub fn add(&self, rhs: &AnyVal<'_>) -> (r: Result<Bytes, ExecutionError>)
        ensures
            match rhs@.octets() {
                Some(b) => r matches Ok(v) && v@ == self@ + b,
                None => r matches Err(e) && is_unsupported_operator(
                    e,
                    "add"@,
                    CelValue::Bytes(self@),
                    rhs@,
                ),
            },
    {
        match rhs.as_bytes_ref() {
            Some(b) => Ok(Bytes::from(concat_bytes(self.0, b))),
            None => Err(
                ExecutionError::UnsupportedBinaryOperator(
                    "add",
                    self.clone_as_boxed(),
                    rhs.clone_as_boxed(),
                ),
            ),
        }
    }

    /// Lexicographic comparison with other bytes (owned or borrowed); any
    /// other operand has no such overload.
    pub fn compare(&self, rhs: &AnyVal<'_>) -> (r: Result<Ordering, ExecutionError>)
        ensures
            match rhs@.octets() {
                Some(b) => r matches Ok(o) && order_sign(o) == lex_sign(self@, b),
                None => r == Err::<Ordering, ExecutionError>(ExecutionError::NoSuchOverload),
            },
    {
        match rhs.as_bytes_ref() {
            Some(b) => Ok(ordering_of_sign(compare_bytes(self.0, b))),
            None => Err(ExecutionError::NoSuchOverload),
        }
    }

    /// The number of bytes, as a CEL integer.
    pub fn size(&self) -> (r: i64)
        ensures
            r == self@.len() as i64,
    {
        self.0.len() as i64
    }

    /// Whether the value is the zero value of its type: no bytes.
    pub fn is_zero_value(&self) -> (r: bool)
        ensures
            r == (self@.len() == 0),
    {
        self.0.len() == 0
    }
}

impl<'a> Val for BytesRef<'a> {
    open spec fn cel_value(&self) -> CelValue {
        CelValue::Bytes(self@)
    }

    fn get_type(&self) -> (t: Type) {
        Type::new(Kind::Bytes)
    }

    fn as_str_ref(&self) -> (r: Option<&str>) {
        None
    }

    fn as_bytes_ref(&self) -> (r: Option<&[u8]>) {
        Some(self.0)
    }

    fn equals(&self, other: &AnyVal<'_>) -> (r: bool) {
        match other.as_bytes_ref() {
            Some(b) => bytes_equal(b, self.0),
            None => false,
        }
    }

    /// Cloning a `BytesRef` necessarily allocates: the result is owned bytes.
    fn clone_as_boxed(&self) -> (r: AnyVal<'static>) {
        AnyVal::Bytes(Bytes::from(copy_bytes(self.0)))
    }
}

} // verus!
