//! Regular expressions, which the `matches` function of CEL tests strings
//! against. Compiling and running them is the work of the `regex` crate.
use vstd::prelude::*;
use std::string::String as StdString;

verus! {

#[verifier::external_type_specification]
#[verifier::external_body]
pub struct ExRegex(regex::Regex);

/// What `regex::Regex::new` reports for a pattern: `None` when the pattern
/// compiles, else the text of the error (its `Display`).
pub uninterp spec fn regex_compile_error(pattern: Seq<char>) -> Option<Seq<char>>;

/// Whether the regular expression compiled from `pattern` matches somewhere
/// in `haystack`, as `regex::Regex::is_match` answers.
pub uninterp spec fn regex_is_match(pattern: Seq<char>, haystack: Seq<char>) -> bool;

/// A compiled regular expression, together with the pattern it was compiled
/// from.
pub struct CompiledRegex {
    re: regex::Regex,
    pattern: Ghost<Seq<char>>,
}

impl View for CompiledRegex {
    type V = Seq<char>;

    closed spec fn view(&self) -> Seq<char> {
        self.pattern@
    }
}

/// Compiles `pattern` with `regex::Regex::new`. The contract claims that the
/// outcome is a function of the pattern alone: a compiled expression that
/// remembers its pattern, or the text (`Display`) of the error that
/// `regex::Error` reports.
#[verifier::external_body]
pub(crate) fn compile_regex(pattern: &str) -> (r: Result<CompiledRegex, StdString>)
    ensures
        match r {
            Ok(re) => regex_compile_error(pattern@) is None && re@ == pattern@,
            Err(msg) => regex_compile_error(pattern@) == Some(msg@),
        },
{
    match regex::Regex::new(pattern) {
        Ok(re) => Ok(CompiledRegex { re, pattern: Ghost(pattern@) }),
        Err(e) => Err(e.to_string()),
    }
}

/// Runs `regex::Regex::is_match` of the compiled expression on `haystack`.
/// The contract claims that the answer is a function of the pattern and the
/// haystack alone.
#[verifier::external_body]
pub(crate) fn regex_matches(re: &CompiledRegex, haystack: &str) -> (r: bool)
    ensures
        r == regex_is_match(re@, haystack@),
{
    re.re.is_match(haystack)
}

} // verus!
