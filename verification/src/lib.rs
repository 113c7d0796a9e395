//! Values, standard functions and variable scopes of the Common Expression
//! Language, with the string and bytes types at their centre.

pub mod common;
pub mod context;
pub mod env;
pub mod error;

pub use common::types::bytes::Bytes;
pub use common::types::bytes_ref::BytesRef;
pub use common::types::str_ref::StrRef;
pub use common::types::string::String as CelString;
pub use common::types::{Kind, Type};
pub use common::value::{AnyVal, CelValue, Downcast, Val};
pub use context::{Context, StoredValue, VariableResolver};
pub use env::{Builtin, Env};
pub use error::ExecutionError;
