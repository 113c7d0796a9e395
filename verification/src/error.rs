//! The errors that evaluating CEL reports.
use vstd::prelude::*;
use std::string::String as StdString;
use crate::common::value::AnyVal;

verus! {

/// An error raised while a CEL expression is evaluated.
#[derive(Clone, Debug, PartialEq)]
pub enum ExecutionError {
    /// The operator (named by the text) is not defined between the two values.
    UnsupportedBinaryOperator(&'static str, AnyVal<'static>, AnyVal<'static>),
    /// No overload of a function accepts the arguments it was given.
    NoSuchOverload,
    /// An argument had another type than the one the function wants.
    UnexpectedType { got: StdString, want: StdString },
    /// A function failed, for the reason that the message gives.
    FunctionError { function: StdString, message: StdString },
}

} // verus!
