//! The values that CEL expressions compute with, what each of them stands
//! for, and the interface that all of them share.
use vstd::prelude::*;
use crate::common::types::{Kind, Type};
use crate::common::types::bytes::Bytes;
use crate::common::types::bytes_ref::BytesRef;
use crate::common::types::str_ref::StrRef;
use crate::common::types::string::String as CelString;

verus! {

/// What a CEL value stands for, whatever holds it: a string is a sequence of
/// characters, owned or borrowed alike; bytes are a sequence of bytes.
pub enum CelValue {
    Null,
    Bool(bool),
    Int(i64),
    UInt(u64),
    Str(Seq<char>),
    Bytes(Seq<u8>),
}

impl CelValue {
    pub open spec fn kind(self) -> Kind {
        match self {
            CelValue::Null => Kind::Null,
            CelValue::Bool(_) => Kind::Bool,
            CelValue::Int(_) => Kind::Int,
            CelValue::UInt(_) => Kind::UInt,
            CelValue::Str(_) => Kind::String,
            CelValue::Bytes(_) => Kind::Bytes,
        }
    }

    /// The characters of a string value.
    pub open spec fn text(self) -> Option<Seq<char>> {
        match self {
            CelValue::Str(s) => Some(s),
            _ => None,
        }
    }

    /// The bytes of a bytes value.
    pub open spec fn octets(self) -> Option<Seq<u8>> {
        match self {
            CelValue::Bytes(b) => Some(b),
            _ => None,
        }
    }
}

/// A CEL value of any of the kinds this library handles. Strings and bytes
/// may be owned, or borrowed from data that lives for `'a`.
#[derive(Debug)]
pub enum AnyVal<'a> {
    Null,
    Bool(bool),
    Int(i64),
    UInt(u64),
    String(CelString),
    Bytes(Bytes),
    StrRef(StrRef<'a>),
    BytesRef(BytesRef<'a>),
}

impl<'a> View for AnyVal<'a> {
    type V = CelValue;

    open spec fn view(&self) -> CelValue {
        match self {
            AnyVal::Null => CelValue::Null,
            AnyVal::Bool(b) => CelValue::Bool(*b),
            AnyVal::Int(i) => CelValue::Int(*i),
            AnyVal::UInt(u) => CelValue::UInt(*u),
            AnyVal::String(s) => CelValue::Str(s@),
            AnyVal::Bytes(b) => CelValue::Bytes(b@),
            AnyVal::StrRef(s) => CelValue::Str(s@),
            AnyVal::BytesRef(b) => CelValue::Bytes(b@),
        }
    }
}

/// Whether an optional string reference holds the characters of a value
/// exactly when the value is a string.
pub open spec fn str_ref_of(r: Option<&str>, v: CelValue) -> bool {
    match r {
        Some(s) => v == CelValue::Str(s@),
        None => v.text() is None,
    }
}

/// Whether an optional byte slice holds the bytes of a value exactly when the
/// value is bytes.
pub open spec fn bytes_ref_of(r: Option<&[u8]>, v: CelValue) -> bool {
    match r {
        Some(b) => v == CelValue::Bytes(b@),
        None => v.octets() is None,
    }
}

/// The interface that every CEL value offers.
pub trait Val {
    /// What the value stands for.
    spec fn cel_value(&self) -> CelValue;

    /// The CEL type of the value.
    fn get_type(&self) -> (t: Type)
        ensures
            t.kind == self.cel_value().kind(),
    ;

    /// The characters of a string value, borrowed; `None` for other kinds.
    fn as_str_ref(&self) -> (r: Option<&str>)
        ensures
            str_ref_of(r, self.cel_value()),
    ;

    /// The bytes of a bytes value, borrowed; `None` for other kinds.
    fn as_bytes_ref(&self) -> (r: Option<&[u8]>)
        ensures
            bytes_ref_of(r, self.cel_value()),
    ;

    /// Whether `other` stands for the same value: strings equal strings with
    /// the same characters and bytes equal bytes with the same bytes, whether
    /// owned or borrowed.
    fn equals(&self, other: &AnyVal<'_>) -> (r: bool)
        ensures
            r == (self.cel_value() == other@),
    ;

    /// An owned copy of the value, borrowing nothing.
    fn clone_as_boxed(&self) -> (r: AnyVal<'static>)
        ensures
            r@ == self.cel_value(),
            r.is_owned(),
    ;
}

impl<'a> AnyVal<'a> {
    /// Whether the value borrows nothing.
    pub open spec fn is_owned(&self) -> bool {
        !(self is StrRef) && !(self is BytesRef)
    }

    /// The value as a `T`, where it is held as one: an owned string, owned
    /// bytes, an integer or a boolean. Borrowed strings and bytes are held as
    /// no such type.
    pub fn downcast_ref<T: Downcast>(&self) -> (r: Option<&T>)
        ensures
            match r {
                Some(t) => T::extract(*self) == Some(*t),
                None => T::extract(*self) is None,
            },
    {
        T::downcast_from(self)
    }
}

/// The types that a value can be held as, and taken out of an [`AnyVal`] as.
pub trait Downcast: Sized {
    /// The value as this type, where it is held as one.
    spec fn extract(v: AnyVal<'_>) -> Option<Self>;

    fn downcast_from<'b, 'c>(v: &'c AnyVal<'b>) -> (r: Option<&'c Self>)
        ensures
            match r {
                Some(t) => Self::extract(*v) == Some(*t),
                None => Self::extract(*v) is None,
            },
    ;
}

impl Downcast for CelString {
    open spec fn extract(v: AnyVal<'_>) -> Option<CelString> {
        match v {
            AnyVal::String(s) => Some(s),
            _ => None,
        }
    }

    fn downcast_from<'b, 'c>(v: &'c AnyVal<'b>) -> (r: Option<&'c CelString>) {
        match v {
            AnyVal::String(s) => Some(s),
            _ => None,
        }
    }
}

impl Downcast for Bytes {
    open spec fn extract(v: AnyVal<'_>) -> Option<Bytes> {
        match v {
            AnyVal::Bytes(b) => Some(b),
            _ => None,
        }
    }

    fn downcast_from<'b, 'c>(v: &'c AnyVal<'b>) -> (r: Option<&'c Bytes>) {
        match v {
            AnyVal::Bytes(b) => Some(b),
            _ => None,
        }
    }
}

impl Downcast for i64 {
    open spec fn extract(v: AnyVal<'_>) -> Option<i64> {
        match v {
            AnyVal::Int(i) => Some(i),
            _ => None,
        }
    }

    fn downcast_from<'b, 'c>(v: &'c AnyVal<'b>) -> (r: Option<&'c i64>) {
        match v {
            AnyVal::Int(i) => Some(i),
            _ => None,
        }
    }
}

impl Downcast for u64 {
    open spec fn extract(v: AnyVal<'_>) -> Option<u64> {
        match v {
            AnyVal::UInt(u) => Some(u),
            _ => None,
        }
    }

    fn downcast_from<'b, 'c>(v: &'c AnyVal<'b>) -> (r: Option<&'c u64>) {
        match v {
            AnyVal::UInt(u) => Some(u),
            _ => None,
        }
    }
}

impl Downcast for bool {
    open spec fn extract(v: AnyVal<'_>) -> Option<bool> {
        match v {
            AnyVal::Bool(b) => Some(b),
            _ => None,
        }
    }

    fn downcast_from<'b, 'c>(v: &'c AnyVal<'b>) -> (r: Option<&'c bool>) {
        match v {
            AnyVal::Bool(b) => Some(b),
            _ => None,
        }
    }
}

impl<'a> Val for AnyVal<'a> {
    open spec fn cel_value(&self) -> CelValue {
        self@
    }

    fn get_type(&self) -> (t: Type) {
        match self {
            AnyVal::Null => Type::new(Kind::Null),
            AnyVal::Bool(_) => Type::new(Kind::Bool),
            AnyVal::Int(_) => Type::new(Kind::Int),
            AnyVal::UInt(_) => Type::new(Kind::UInt),
            AnyVal::String(s) => s.get_type(),
            AnyVal::Bytes(b) => b.get_type(),
            AnyVal::StrRef(s) => s.get_type(),
            AnyVal::BytesRef(b) => b.get_type(),
        }
    }

    fn as_str_ref(&self) -> (r: Option<&str>) {
        match self {
            AnyVal::String(s) => s.as_str_ref(),
            AnyVal::StrRef(s) => s.as_str_ref(),
            _ => None,
        }
    }

    fn as_bytes_ref(&self) -> (r: Option<&[u8]>) {
        match self {
            AnyVal::Bytes(b) => b.as_bytes_ref(),
            AnyVal::BytesRef(b) => b.as_bytes_ref(),
            _ => None,
        }
    }

    fn equals(&self, other: &AnyVal<'_>) -> (r: bool) {
        match self {
            AnyVal::Null => match other {
                AnyVal::Null => true,
                _ => false,
            },
            AnyVal::Bool(a) => match other {
                AnyVal::Bool(b) => *a == *b,
                _ => false,
            },
            AnyVal::Int(a) => match other {
                AnyVal::Int(b) => *a == *b,
                _ => false,
            },
            AnyVal::UInt(a) => match other {
                AnyVal::UInt(b) => *a == *b,
                _ => false,
            },
            AnyVal::String(s) => s.equals(other),
            AnyVal::Bytes(b) => b.equals(other),
            AnyVal::StrRef(s) => s.equals(other),
            AnyVal::BytesRef(b) => b.equals(other),
        }
    }

    fn clone_as_boxed(&self) -> (r: AnyVal<'static>) {
        match self {
            AnyVal::Null => AnyVal::Null,
            AnyVal::Bool(b) => AnyVal::Bool(*b),
            AnyVal::Int(i) => AnyVal::Int(*i),
            AnyVal::UInt(u) => AnyVal::UInt(*u),
            AnyVal::String(s) => s.clone_as_boxed(),
            AnyVal::Bytes(b) => b.clone_as_boxed(),
            AnyVal::StrRef(s) => s.clone_as_boxed(),
            AnyVal::BytesRef(b) => b.clone_as_boxed(),
        }
    }
}

/// Two values are equal when they stand for the same value (see
/// [`Val::equals`]): an owned and a borrowed string with the same characters
/// are equal.
impl<'a> PartialEq for AnyVal<'a> {
    fn eq(&self, other: &AnyVal<'a>) -> (r: bool) {
        self.equals(other)
    }
}

impl<'a> vstd::std_specs::cmp::PartialEqSpecImpl for AnyVal<'a> {
    open spec fn obeys_eq_spec() -> bool {
        true
    }

    open spec fn eq_spec(&self, other: &AnyVal<'a>) -> bool {
        self@ == other@
    }
}

impl<'a> Eq for AnyVal<'a> {
}

/// A copy of a value is an owned one (see [`Val::clone_as_boxed`]): copying
/// a borrowed string or bytes copies the data, so that the copy borrows
/// nothing.
impl<'a> Clone for AnyVal<'a> {
    fn clone(&self) -> (r: AnyVal<'a>)
        ensures
            r@ == self@,
            r.is_owned(),
    {
        self.clone_as_boxed()
    }
}

} // verus!
