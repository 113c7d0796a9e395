//! Owned CEL bytes.
use vstd::prelude::*;
use core::cmp::Ordering;
use crate::common::order::{compare_bytes, lex_sign, order_sign, ordering_of_sign};
use crate::common::text::{bytes_equal, concat_bytes, copy_bytes};
use crate::common::types::{kind_name, no_params, params_of, Kind, Type};
use crate::common::types::string::is_unexpected_type;
use vstd::utf8::encode_utf8;
use crate::common::value::{AnyVal, CelValue, Val};
use crate::env::{
    has_id, lemma_next_fresh, lemma_split_distinct, lemma_standard_ids_distinct, overload, Builtin,
    Env, OverloadView,
};
use crate::common::types::string::string_overloads;
use crate::error::ExecutionError;

verus! {

/// A CEL bytes value that owns its bytes.
#[derive(Clone, Debug, PartialEq)]
pub struct Bytes(Vec<u8>);

impl View for Bytes {
    type V = Seq<u8>;

    closed spec fn view(&self) -> Seq<u8> {
        self.0@
    }
}

/// Whether `r` is the error that an operator named `op` reports between the
/// value `lhs` and the value `rhs`.
pub open spec fn is_unsupported_operator(
    r: ExecutionError,
    op: Seq<char>,
    lhs: CelValue,
    rhs: CelValue,
) -> bool {
    match r {
        ExecutionError::UnsupportedBinaryOperator(o, l, v) => o@ == op && l@ == lhs && v@ == rhs,
        _ => false,
    }
}

impl Bytes {
    /// The bytes, given up by the value.
    pub fn into_inner(self) -> (v: Vec<u8>)
        ensures
            v@ == self@,
    {
        self.0
    }

    /// The bytes, borrowed.
    pub fn inner(&self) -> (s: &[u8])
        ensures
            s@ == self@,
    {
        self.0.as_slice()
    }

    /// Concatenation: `self` followed by `other`, where `other` is bytes
    /// (owned or borrowed). Any other operand is refused with the error of an
    /// unsupported `add`.
    pub fn add(&self, other: &AnyVal<'_>) -> (r: Result<Bytes, ExecutionError>)
        ensures
            match other@.octets() {
                Some(b) => r matches Ok(v) && v@ == self@ + b,
                None => r matches Err(e) && is_unsupported_operator(
                    e,
                    "add"@,
                    CelValue::Bytes(self@),
                    other@,
                ),
            },
    {
        match other.as_bytes_ref() {
            Some(b) => Ok(Bytes(concat_bytes(self.inner(), b))),
            None => Err(
                ExecutionError::UnsupportedBinaryOperator(
                    "add",
                    self.clone_as_boxed(),
                    other.clone_as_boxed(),
                ),
            ),
        }
    }

    /// Lexicographic comparison with other bytes (owned or borrowed); any
    /// other operand has no such overload.
    pub fn compare(&self, other: &AnyVal<'_>) -> (r: Result<Ordering, ExecutionError>)
        ensures
            match other@.octets() {
                Some(b) => r matches Ok(o) && order_sign(o) == lex_sign(self@, b),
                None => r == Err::<Ordering, ExecutionError>(ExecutionError::NoSuchOverload),
            },
    {
        match other.as_bytes_ref() {
            Some(b) => Ok(ordering_of_sign(compare_bytes(self.inner(), b))),
            None => Err(ExecutionError::NoSuchOverload),
        }
    }

    /// The number of bytes, as a CEL integer.
    pub fn size(&self) -> (r: i64)
        ensures
            r == self@.len() as i64,
    {
        self.0.len() as i64
    }

    /// Whether the value is the zero value of its type: no bytes.
    pub fn is_zero_value(&self) -> (r: bool)
        ensures
            r == (self@.len() == 0),
    {
        self.0.len() == 0
    }
}

impl Val for Bytes {
    open spec fn cel_value(&self) -> CelValue {
        CelValue::Bytes(self@)
    }

    fn get_type(&self) -> (t: Type) {
        Type::new(Kind::Bytes)
    }

    fn as_str_ref(&self) -> (r: Option<&str>) {
        None
    }

    fn as_bytes_ref(&self) -> (r: Option<&[u8]>) {
        Some(self.inner())
    }

    fn equals(&self, other: &AnyVal<'_>) -> (r: bool) {
        match other.as_bytes_ref() {
            Some(b) => bytes_equal(self.inner(), b),
            None => false,
        }
    }

    fn clone_as_boxed(&self) -> (r: AnyVal<'static>) {
        AnyVal::Bytes(Bytes(copy_bytes(self.inner())))
    }
}

impl core::ops::Deref for Bytes {
    type Target = [u8];

    fn deref(&self) -> (s: &[u8])
        ensures
            s@ == self@,
    {
        self.inner()
    }
}

impl Default for Bytes {
    fn default() -> (r: Bytes)
        ensures
            r@ == Seq::<u8>::empty(),
    {
        Bytes(Vec::new())
    }
}

impl From<Vec<u8>> for Bytes {
    fn from(value: Vec<u8>) -> (r: Bytes)
        ensures
            r@ == value@,
    {
        Bytes(value)
    }
}

impl vstd::std_specs::convert::FromSpecImpl<Vec<u8>> for Bytes {
    open spec fn obeys_from_spec() -> bool {
        true
    }

    closed spec fn from_spec(v: Vec<u8>) -> Bytes {
        Bytes(v)
    }
}

impl From<Bytes> for Vec<u8> {
    fn from(value: Bytes) -> (r: Vec<u8>)
        ensures
            r@ == value@,
    {
        value.0
    }
}

impl vstd::std_specs::convert::FromSpecImpl<Bytes> for Vec<u8> {
    open spec fn obeys_from_spec() -> bool {
        true
    }

    closed spec fn from_spec(v: Bytes) -> Vec<u8> {
        v.0
    }
}

impl<'a> TryFrom<AnyVal<'a>> for Vec<u8> {
    type Error = AnyVal<'a>;

    /// The bytes of an owned CEL bytes value; any other value, borrowed bytes
    /// included, is handed back.
    fn try_from(value: AnyVal<'a>) -> (r: Result<Vec<u8>, AnyVal<'a>>)
        ensures
            match value {
                AnyVal::Bytes(b) => r matches Ok(v) && v@ == b@,
                _ => r == Err::<Vec<u8>, AnyVal<'a>>(value),
            },
    {
        match value {
            AnyVal::Bytes(b) => Ok(b.into_inner()),
            other => Err(other),
        }
    }
}

impl<'a> vstd::std_specs::convert::TryFromSpecImpl<AnyVal<'a>> for Vec<u8> {
    /// The result is known by its bytes alone (see the `ensures` of
    /// `try_from`).
    open spec fn obeys_try_from_spec() -> bool {
        false
    }

    open spec fn try_from_spec(v: AnyVal<'a>) -> Result<Vec<u8>, AnyVal<'a>> {
        arbitrary()
    }
}

impl<'b, 'a> TryFrom<&'b AnyVal<'a>> for &'b [u8] {
    type Error = &'b AnyVal<'a>;

    /// The bytes of a bytes value, owned or borrowed; any other value is
    /// handed back.
    fn try_from(value: &'b AnyVal<'a>) -> (r: Result<&'b [u8], &'b AnyVal<'a>>)
        ensures
            match r {
                Ok(b) => value@ == CelValue::Bytes(b@),
                Err(v) => v == value && value@.octets() is None,
            },
    {
        match value.as_bytes_ref() {
            Some(b) => Ok(b),
            None => Err(value),
        }
    }
}

impl<'b, 'a> vstd::std_specs::convert::TryFromSpecImpl<&'b AnyVal<'a>> for &'b [u8] {
    /// The result is known by its bytes alone (see the `ensures` of
    /// `try_from`).
    open spec fn obeys_try_from_spec() -> bool {
        false
    }

    open spec fn try_from_spec(v: &'b AnyVal<'a>) -> Result<&'b [u8], &'b AnyVal<'a>> {
        arbitrary()
    }
}

/// CEL's `bytes(b)` on bytes: the argument itself.
pub fn bytes_to_bytes<'a>(args: Vec<AnyVal<'a>>) -> (r: Result<AnyVal<'a>, ExecutionError>)
    requires
        args@.len() >= 1,
    ensures
        r == Ok::<AnyVal<'a>, ExecutionError>(args@[0]),
{
    let mut args = args;
    Ok(args.remove(0))
}

/// CEL's `bytes(s)` on a string: its UTF-8 encoding, as owned bytes. Any other
/// argument is refused as of an unexpected type.
pub fn string_to_bytes<'a>(args: Vec<AnyVal<'a>>) -> (r: Result<AnyVal<'a>, ExecutionError>)
    requires
        args@.len() >= 1,
    ensures
        match args@[0]@.text() {
            Some(s) => r matches Ok(v) && v@ == CelValue::Bytes(encode_utf8(s)) && v.is_owned(),
            None => r matches Err(e) && is_unexpected_type(e, kind_name(args@[0]@.kind()), "Bytes"@),
        },
{
    let mut args = args;
    let arg = args.remove(0);
    match arg.as_str_ref() {
        Some(s) => {
            let value = copy_bytes(s.as_bytes());
            Ok(AnyVal::Bytes(Bytes::from(value)))
        },
        None => Err(
            ExecutionError::UnexpectedType {
                got: arg.get_type().name().to_owned(),
                want: "Bytes".to_owned(),
            },
        ),
    }
}

/// The overloads that [`stdlib`] registers for bytes, in order.
pub open spec fn bytes_overloads() -> Seq<OverloadView> {
    let string_t = Type { kind: Kind::String };
    let bytes_t = Type { kind: Kind::Bytes };
    seq![
        overload("bytes"@, "string_to_bytes"@, None, seq![string_t], Builtin::StringToBytes),
        overload("bytes"@, "bytes_to_bytes"@, None, seq![bytes_t], Builtin::BytesToBytes),
        overload("size"@, "size_bytes"@, None, seq![bytes_t], Builtin::Size),
        overload("size"@, "bytes_size"@, Some(bytes_t), Seq::empty(), Builtin::Size),
    ]
}

/// Registers the standard functions on bytes: `bytes` (of a string, of
/// bytes) and `size` (global and member).
pub fn stdlib(env: &mut Env)
    requires
        forall|i: int| 0 <= i < bytes_overloads().len() ==> !has_id(old(env)@, #[trigger] bytes_overloads()[i].id),
    ensures
        final(env)@ == old(env)@ + bytes_overloads(),
{
    let ghost start = env@;
    let ghost o = bytes_overloads();
    proof {
        lemma_standard_ids_distinct();
        lemma_split_distinct(bytes_overloads(), string_overloads());
        assert(start + o.take(0) =~= start);
        lemma_next_fresh(start, o, 0);
    }
    let _ = env.add_overload("bytes", "string_to_bytes", params_of(Kind::String), Builtin::StringToBytes);
    proof {
        assert(env@ =~= start + o.take(1));
        lemma_next_fresh(start, o, 1);
    }
    let _ = env.add_overload("bytes", "bytes_to_bytes", params_of(Kind::Bytes), Builtin::BytesToBytes);
    proof {
        assert(env@ =~= start + o.take(2));
        lemma_next_fresh(start, o, 2);
    }
    let _ = env.add_overload("size", "size_bytes", params_of(Kind::Bytes), Builtin::Size);
    proof {
        assert(env@ =~= start + o.take(3));
        lemma_next_fresh(start, o, 3);
    }
    let _ = env.add_member_overload("size", "bytes_size", Type::new(Kind::Bytes), no_params(), Builtin::Size);
    proof {
        assert(env@ =~= start + o);
    }
}

} // verus!
