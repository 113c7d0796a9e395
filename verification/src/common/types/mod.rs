use vstd::prelude::*;

pub mod bytes;
pub mod bytes_ref;
pub mod str_ref;
pub mod string;

verus! {

/// The kinds of CEL values that this library knows by name.
#[derive(Clone, Copy, Debug, PartialEq, Eq, Structural)]
pub enum Kind {
    Null,
    Bool,
    Int,
    UInt,
    Double,
    String,
    Bytes,
}

/// The CEL type of a value: its kind, which also fixes its name.
#[derive(Clone, Copy, Debug, PartialEq, Eq, Structural)]
pub struct Type {
    pub kind: Kind,
}

/// The name CEL gives to the type of each kind.
pub open spec fn kind_name(kind: Kind) -> Seq<char> {
    match kind {
        Kind::Null => "null_type"@,
        Kind::Bool => "bool"@,
        Kind::Int => "int"@,
        Kind::UInt => "uint"@,
        Kind::Double => "double"@,
        Kind::String => "string"@,
        Kind::Bytes => "bytes"@,
    }
}

impl Type {
    pub fn new(kind: Kind) -> (t: Type)
        ensures
            t.kind == kind,
    {
        Type { kind }
    }

    pub fn kind(&self) -> (k: Kind)
        ensures
            k == self.kind,
    {
        self.kind
    }

    pub fn name(&self) -> (n: &'static str)
        ensures
            n@ == kind_name(self.kind),
    {
        match self.kind {
            Kind::Null => {
                proof { reveal_strlit("null_type"); }
                "null_type"
            },
            Kind::Bool => {
                proof { reveal_strlit("bool"); }
                "bool"
            },
            Kind::Int => {
                proof { reveal_strlit("int"); }
                "int"
            },
            Kind::UInt => {
                proof { reveal_strlit("uint"); }
                "uint"
            },
            Kind::Double => {
                proof { reveal_strlit("double"); }
                "double"
            },
            Kind::String => {
                proof { reveal_strlit("string"); }
                "string"
            },
            Kind::Bytes => {
                proof { reveal_strlit("bytes"); }
                "bytes"
            },
        }
    }
}

/// The parameter list of one argument of kind `kind`.
pub fn params_of(kind: Kind) -> (v: Vec<Type>)
    ensures
        v@ == seq![Type { kind }],
{
    let mut v: Vec<Type> = Vec::new();
    v.push(Type::new(kind));
    assert(v@ =~= seq![Type { kind }]);
    v
}

/// The empty parameter list.
pub fn no_params() -> (v: Vec<Type>)
    ensures
        v@ == Seq::<Type>::empty(),
{
    Vec::new()
}

} // verus!
