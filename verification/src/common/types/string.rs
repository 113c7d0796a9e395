//! Owned CEL strings, and the standard functions on strings.
use vstd::prelude::*;
use core::cmp::Ordering;
use std::string::String as StdString;
use crate::common::order::{lex_sign, order_sign};
use crate::common::pattern::{compile_regex, regex_compile_error, regex_is_match, regex_matches};
use crate::common::text::{
    bytes_contain, bytes_end_with, bytes_start_with, int_to_text, uint_to_text, is_prefix,
    is_suffix, occurs_at, occurs_in, signed_decimal, decimal, string_from_utf8_lossy, utf8_lossy,
};
use crate::common::types::kind_name;
use crate::common::types::bytes::is_unsupported_operator;
use crate::common::types::str_ref::{str_concat, StrRef};
use crate::common::types::{no_params, params_of, Kind, Type};
use crate::common::value::{AnyVal, CelValue, Val};
use crate::env::{
    has_id, lemma_next_fresh, lemma_split_distinct, lemma_standard_ids_distinct, overload, Builtin,
    Env, OverloadView,
};
use crate::common::types::bytes::bytes_overloads;
use crate::error::ExecutionError;
use vstd::utf8::{decode_utf8, encode_utf8, valid_utf8};

verus! {

broadcast use vstd::utf8::group_utf8_lib;

/// A CEL string value that owns its characters.
#[derive(Clone, Debug, Eq, Hash, PartialEq, PartialOrd, Ord)]
pub struct String(StdString);

impl View for String {
    type V = Seq<char>;

    closed spec fn view(&self) -> Seq<char> {
        self.0@
    }
}

impl String {
    /// The characters, given up by the value.
    pub fn into_inner(self) -> (s: StdString)
        ensures
            s@ == self@,
    {
        self.0
    }

    /// The characters, borrowed.
    pub fn inner(&self) -> (s: &str)
        ensures
            s@ == self@,
    {
        self.0.as_str()
    }

    /// Concatenation: `self` followed by `rhs`, where `rhs` is a string
    /// (owned or borrowed). Any other operand is refused with the error of an
    /// unsupported `add`.
    pub fn add(&self, rhs: &AnyVal<'_>) -> (r: Result<String, ExecutionError>)
        ensures
            match rhs@.text() {
                Some(t) => r matches Ok(v) && v@ == self@ + t,
                None => r matches Err(e) && is_unsupported_operator(
                    e,
                    "add"@,
                    CelValue::Str(self@),
                    rhs@,
                ),
            },
    {
        str_concat(self.inner(), rhs)
    }

    /// Comparison with another string (owned or borrowed), by the
    /// lexicographic order of their UTF-8 encodings; any other operand has no
    /// such overload.
    pub fn compare(&self, rhs: &AnyVal<'_>) -> (r: Result<Ordering, ExecutionError>)
        ensures
            match rhs@.text() {
                Some(t) => r matches Ok(o) && order_sign(o) == lex_sign(
                    encode_utf8(self@),
                    encode_utf8(t),
                ),
                None => r == Err::<Ordering, ExecutionError>(ExecutionError::NoSuchOverload),
            },
    {
        StrRef(self.inner()).compare(rhs)
    }

    /// The length of the string in bytes of UTF-8, as a CEL integer.
    pub fn size(&self) -> (r: i64)
        ensures
            r == encode_utf8(self@).len() as i64,
    {
        StrRef(self.inner()).size()
    }

    /// Whether the value is the zero value of its type: the empty string.
    pub fn is_zero_value(&self) -> (r: bool)
        ensures
            r == (self@.len() == 0),
    {
        StrRef(self.inner()).is_zero_value()
    }
}

impl Val for String {
    open spec fn cel_value(&self) -> CelValue {
        CelValue::Str(self@)
    }

    fn get_type(&self) -> (t: Type) {
        Type::new(Kind::String)
    }

    fn as_str_ref(&self) -> (r: Option<&str>) {
        Some(self.inner())
    }

    fn as_bytes_ref(&self) -> (r: Option<&[u8]>) {
        None
    }

    fn equals(&self, other: &AnyVal<'_>) -> (r: bool) {
        StrRef(self.inner()).equals(other)
    }

    fn clone_as_boxed(&self) -> (r: AnyVal<'static>) {
        AnyVal::String(String(self.inner().to_owned()))
    }
}

impl core::ops::Deref for String {
    type Target = str;

    fn deref(&self) -> (s: &str)
        ensures
            s@ == self@,
    {
        self.inner()
    }
}

impl Default for String {
    fn default() -> (r: String)
        ensures
            r@ == Seq::<char>::empty(),
    {
        String(StdString::new())
    }
}

impl From<StdString> for String {
    fn from(v: StdString) -> (r: String)
        ensures
            r@ == v@,
    {
        String(v)
    }
}

impl vstd::std_specs::convert::FromSpecImpl<StdString> for String {
    open spec fn obeys_from_spec() -> bool {
        true
    }

    closed spec fn from_spec(v: StdString) -> String {
        String(v)
    }
}

impl From<String> for StdString {
    fn from(v: String) -> (r: StdString)
        ensures
            r@ == v@,
    {
        v.0
    }
}

impl vstd::std_specs::convert::FromSpecImpl<String> for StdString {
    open spec fn obeys_from_spec() -> bool {
        true
    }

    closed spec fn from_spec(v: String) -> StdString {
        v.0
    }
}

impl<'a> From<&'a str> for String {
    fn from(value: &'a str) -> (r: String)
        ensures
            r@ == value@,
    {
        String(value.to_owned())
    }
}

impl<'a> vstd::std_specs::convert::FromSpecImpl<&'a str> for String {
    /// A string built from `&str` is known by its characters alone (see the
    /// `ensures` of `from`), not as one particular value.
    open spec fn obeys_from_spec() -> bool {
        false
    }

    open spec fn from_spec(v: &'a str) -> String {
        arbitrary()
    }
}

/// Whether the string `s` contains `n`, as a run of its UTF-8 bytes.
pub open spec fn str_contains(s: Seq<char>, n: Seq<char>) -> bool {
    occurs_in(encode_utf8(n), encode_utf8(s))
}

/// Whether the string `s` begins with `p`, compared by their UTF-8 bytes.
pub open spec fn str_starts_with(s: Seq<char>, p: Seq<char>) -> bool {
    is_prefix(encode_utf8(p), encode_utf8(s))
}

/// Whether the string `s` ends with `p`, compared by their UTF-8 bytes.
pub open spec fn str_ends_with(s: Seq<char>, p: Seq<char>) -> bool {
    is_suffix(encode_utf8(p), encode_utf8(s))
}

/// Whether `e` reports an argument of type `got` where `want` was wanted.
pub open spec fn is_unexpected_type(e: ExecutionError, got: Seq<char>, want: Seq<char>) -> bool {
    match e {
        ExecutionError::UnexpectedType { got: g, want: w } => g@ == got && w@ == want,
        _ => false,
    }
}

/// Whether `e` reports that `function` failed with `message`.
pub open spec fn is_function_error(e: ExecutionError, function: Seq<char>, message: Seq<char>) -> bool {
    match e {
        ExecutionError::FunctionError { function: f, message: m } => f@ == function && m@ == message,
        _ => false,
    }
}

/// The outcome of a test between two string arguments: the boolean `test`
/// when both are strings, else the error naming the type of the first one
/// that is not a string.
pub open spec fn string_test_outcome(
    r: Result<AnyVal<'_>, ExecutionError>,
    target: CelValue,
    arg: CelValue,
    test: bool,
) -> bool {
    if target.text() is None {
        r matches Err(e) && is_unexpected_type(e, kind_name(target.kind()), "string"@)
    } else if arg.text() is None {
        r matches Err(e) && is_unexpected_type(e, kind_name(arg.kind()), "string"@)
    } else {
        r matches Ok(v) && v@ == CelValue::Bool(test)
    }
}

/// The error for an argument of another type than a string.
fn unexpected_string(v: &AnyVal<'_>) -> (e: ExecutionError)
    ensures
        is_unexpected_type(e, kind_name(v@.kind()), "string"@),
{
    let t = v.get_type();
    let want = Type::new(Kind::String);
    ExecutionError::UnexpectedType { got: t.name().to_owned(), want: want.name().to_owned() }
}

/// `target.contains(arg)`: whether the string `target` contains the string
/// `arg`.
pub fn string_contains<'a>(args: Vec<AnyVal<'a>>) -> (r: Result<AnyVal<'a>, ExecutionError>)
    requires
        args@.len() >= 2,
    ensures
        string_test_outcome(
            r,
            args@[0]@,
            args@[1]@,
            str_contains(args@[0]@.text().unwrap(), args@[1]@.text().unwrap()),
        ),
{
    let target = &args[0];
    let arg = &args[1];
    match target.as_str_ref() {
        None => Err(unexpected_string(target)),
        Some(s) => match arg.as_str_ref() {
            None => Err(unexpected_string(arg)),
            Some(needle) => Ok(AnyVal::Bool(bytes_contain(s.as_bytes(), needle.as_bytes()))),
        },
    }
}

/// `target.endsWith(needle)`: whether the string `target` ends with the
/// string `needle`.
pub fn ends_with_string<'a>(args: Vec<AnyVal<'a>>) -> (r: Result<AnyVal<'a>, ExecutionError>)
    requires
        args@.len() >= 2,
    ensures
        string_test_outcome(
            r,
            args@[0]@,
            args@[1]@,
            str_ends_with(args@[0]@.text().unwrap(), args@[1]@.text().unwrap()),
        ),
{
    let target = &args[0];
    let needle = &args[1];
    match (target.as_str_ref(), needle.as_str_ref()) {
        (Some(t), Some(n)) => Ok(AnyVal::Bool(bytes_end_with(t.as_bytes(), n.as_bytes()))),
        (None, _) => Err(unexpected_string(target)),
        (_, None) => Err(unexpected_string(needle)),
    }
}

/// `target.startsWith(needle)`: whether the string `target` begins with the
/// string `needle`.
pub fn starts_with_string<'a>(args: Vec<AnyVal<'a>>) -> (r: Result<AnyVal<'a>, ExecutionError>)
    requires
        args@.len() >= 2,
    ensures
        string_test_outcome(
            r,
            args@[0]@,
            args@[1]@,
            str_starts_with(args@[0]@.text().unwrap(), args@[1]@.text().unwrap()),
        ),
{
    let target = &args[0];
    let needle = &args[1];
    match (target.as_str_ref(), needle.as_str_ref()) {
        (Some(t), Some(n)) => Ok(AnyVal::Bool(bytes_start_with(t.as_bytes(), n.as_bytes()))),
        (None, _) => Err(unexpected_string(target)),
        (_, None) => Err(unexpected_string(needle)),
    }
}

/// The message of `matches` for a pattern that does not compile.
pub open spec fn invalid_regex_message(pattern: Seq<char>, error: Seq<char>) -> Seq<char> {
    "'"@ + pattern + "' not a valid regex:\n"@ + error
}

/// What `matches` answers once the pattern `pattern` has been tried: the
/// outcome is whether the compiled expression matched, or the text of the
/// error that compiling the pattern reported. A match outcome is the boolean
/// answer; a compile error is a failure of `matches` whose message quotes
/// the pattern and the error.
pub fn matches_outcome<'a>(pattern: &str, outcome: Result<bool, StdString>) -> (r: Result<AnyVal<'a>, ExecutionError>)
    ensures
        match outcome {
            Ok(b) => r matches Ok(v) && v@ == CelValue::Bool(b),
            Err(msg) => r matches Err(e) && is_function_error(
                e,
                "matches"@,
                invalid_regex_message(pattern@, msg@),
            ),
        },
{
    match outcome {
        Ok(b) => Ok(AnyVal::Bool(b)),
        Err(err) => {
            let mut message = StdString::new();
            message.append("'");
            message.append(pattern);
            message.append("' not a valid regex:\n");
            message.append(err.as_str());
            proof {
                assert(message@ =~= invalid_regex_message(pattern@, err@));
            }
            Err(ExecutionError::FunctionError { function: "matches".to_owned(), message })
        },
    }
}

/// `this.matches(regex)`: whether the regular expression `regex` matches
/// somewhere in the string `this`. A pattern that does not compile is a
/// failure of `matches`, whose message quotes the pattern and the error.
pub fn matches<'a>(args: Vec<AnyVal<'a>>) -> (r: Result<AnyVal<'a>, ExecutionError>)
    requires
        args@.len() >= 2,
    ensures
        ({
            let this = args@[0]@;
            let regex = args@[1]@;
            if this.text() is None {
                r matches Err(e) && is_unexpected_type(e, kind_name(this.kind()), "string"@)
            } else if regex.text() is None {
                r matches Err(e) && is_unexpected_type(e, kind_name(regex.kind()), "string"@)
            } else {
                match regex_compile_error(regex.text().unwrap()) {
                    None => r matches Ok(v) && v@ == CelValue::Bool(
                        regex_is_match(regex.text().unwrap(), this.text().unwrap()),
                    ),
                    Some(msg) => r matches Err(e) && is_function_error(
                        e,
                        "matches"@,
                        invalid_regex_message(regex.text().unwrap(), msg),
                    ),
                }
            }
        }),
{
    let this = &args[0];
    let regex = &args[1];
    match (this.as_str_ref(), regex.as_str_ref()) {
        (Some(s), Some(pattern)) => {
            let outcome = match compile_regex(pattern) {
                Ok(re) => Ok(regex_matches(&re, s)),
                Err(err) => Err(err),
            };
            matches_outcome(pattern, outcome)
        },
        (None, _) => Err(unexpected_string(this)),
        (_, None) => Err(unexpected_string(regex)),
    }
}

/// The text that CEL's `string` function makes of a value of another kind
/// than string, where it converts that kind: an integer's decimal numeral,
/// and bytes decoded as UTF-8 (invalid sequences replaced).
pub open spec fn string_of(v: CelValue) -> Option<Seq<char>> {
    match v {
        CelValue::Int(i) => Some(signed_decimal(i as int)),
        CelValue::UInt(u) => Some(decimal(u as nat)),
        CelValue::Bytes(b) => Some(
            if valid_utf8(b) {
                decode_utf8(b)
            } else {
                utf8_lossy(b)
            },
        ),
        _ => None,
    }
}

/// How a value that `string` cannot convert is named in its error message.
pub open spec fn debug_repr(v: CelValue) -> Seq<char> {
    match v {
        CelValue::Null => "Null"@,
        CelValue::Bool(true) => "Bool(true)"@,
        CelValue::Bool(false) => "Bool(false)"@,
        _ => Seq::empty(),
    }
}

/// The message of `string` for a value it cannot convert.
pub open spec fn cannot_convert_message(v: CelValue) -> Seq<char> {
    "cannot convert "@ + debug_repr(v) + " to string"@
}

/// CEL's `string(value)`: a string is returned as it is (the very argument,
/// not a copy); an integer becomes its decimal numeral; bytes are decoded as
/// UTF-8, with U+FFFD in place of invalid sequences. Other kinds cannot be
/// converted, and `string` fails for them.
pub fn string<'a>(args: Vec<AnyVal<'a>>) -> (r: Result<AnyVal<'a>, ExecutionError>)
    requires
        args@.len() >= 1,
    ensures
        args@[0]@ is Str ==> r == Ok::<AnyVal<'a>, ExecutionError>(args@[0]),
        !(args@[0]@ is Str) ==> match string_of(args@[0]@) {
            Some(t) => r matches Ok(v) && v@ == CelValue::Str(t) && v.is_owned(),
            None => r matches Err(e) && is_function_error(
                e,
                "string"@,
                cannot_convert_message(args@[0]@),
            ),
        },
{
    let mut args = args;
    let arg = args.remove(0);
    if arg.get_type().kind() == Kind::String {
        return Ok(arg);
    }
    match arg {
        AnyVal::Int(i) => Ok(AnyVal::String(String(int_to_text(i)))),
        AnyVal::UInt(u) => Ok(AnyVal::String(String(uint_to_text(u)))),
        AnyVal::Bytes(b) => Ok(AnyVal::String(String(string_from_utf8_lossy(b.inner())))),
        AnyVal::BytesRef(b) => Ok(AnyVal::String(String(string_from_utf8_lossy(b.inner())))),
        _ => {
            let repr: &str = match arg {
                AnyVal::Bool(true) => {
                    proof { reveal_strlit("Bool(true)"); }
                    "Bool(true)"
                },
                AnyVal::Bool(false) => {
                    proof { reveal_strlit("Bool(false)"); }
                    "Bool(false)"
                },
                _ => {
                    proof { reveal_strlit("Null"); }
                    "Null"
                },
            };
            let mut message = StdString::new();
            message.append("cannot convert ");
            message.append(repr);
            message.append(" to string");
            proof {
                reveal_strlit("Null");
                reveal_strlit("Bool(true)");
                reveal_strlit("Bool(false)");
                assert(message@ =~= cannot_convert_message(arg@));
            }
            Err(ExecutionError::FunctionError { function: "string".to_owned(), message })
        },
    }
}

impl<'a> TryFrom<AnyVal<'a>> for StdString {
    type Error = AnyVal<'a>;

    /// The characters of an owned CEL string; any other value, borrowed
    /// strings included, is handed back.
    fn try_from(value: AnyVal<'a>) -> (r: Result<StdString, AnyVal<'a>>)
        ensures
            match value {
                AnyVal::String(s) => r matches Ok(t) && t@ == s@,
                _ => r == Err::<StdString, AnyVal<'a>>(value),
            },
    {
        match value {
            AnyVal::String(s) => Ok(s.into_inner()),
            other => Err(other),
        }
    }
}

impl<'a> vstd::std_specs::convert::TryFromSpecImpl<AnyVal<'a>> for StdString {
    /// The result is known by its characters alone (see the `ensures` of
    /// `try_from`).
    open spec fn obeys_try_from_spec() -> bool {
        false
    }

    open spec fn try_from_spec(v: AnyVal<'a>) -> Result<StdString, AnyVal<'a>> {
        arbitrary()
    }
}

impl<'b, 'a> TryFrom<&'b AnyVal<'a>> for &'b str {
    type Error = &'b AnyVal<'a>;

    /// The characters of a string value, owned or borrowed; any other value
    /// is handed back.
    fn try_from(value: &'b AnyVal<'a>) -> (r: Result<&'b str, &'b AnyVal<'a>>)
        ensures
            match r {
                Ok(s) => value@ == CelValue::Str(s@),
                Err(v) => v == value && value@.text() is None,
            },
    {
        match value.as_str_ref() {
            Some(s) => Ok(s),
            None => Err(value),
        }
    }
}

impl<'b, 'a> vstd::std_specs::convert::TryFromSpecImpl<&'b AnyVal<'a>> for &'b str {
    /// The result is known by its characters alone (see the `ensures` of
    /// `try_from`).
    open spec fn obeys_try_from_spec() -> bool {
        false
    }

    open spec fn try_from_spec(v: &'b AnyVal<'a>) -> Result<&'b str, &'b AnyVal<'a>> {
        arbitrary()
    }
}

/// The overloads that [`stdlib`] registers for strings, in order.
pub open spec fn string_overloads() -> Seq<OverloadView> {
    seq![
        overload("string"@, "string_to_string"@, None, seq![Type { kind: Kind::String }], Builtin::StringToString),
        overload("string"@, "int64_to_string"@, None, seq![Type { kind: Kind::Int }], Builtin::StringToString),
        overload("string"@, "uint64_to_string"@, None, seq![Type { kind: Kind::UInt }], Builtin::StringToString),
        overload("string"@, "double_to_string"@, None, seq![Type { kind: Kind::Double }], Builtin::StringToString),
        overload("string"@, "bytes_to_string"@, None, seq![Type { kind: Kind::Bytes }], Builtin::StringToString),
        overload("contains"@, "contains_string"@, Some(Type { kind: Kind::String }), seq![Type { kind: Kind::String }], Builtin::StringContains),
        overload("endsWith"@, "ends_with_string"@, Some(Type { kind: Kind::String }), seq![Type { kind: Kind::String }], Builtin::EndsWithString),
        overload("size"@, "size_string"@, None, seq![Type { kind: Kind::String }], Builtin::Size),
        overload("size"@, "string_size"@, Some(Type { kind: Kind::String }), Seq::empty(), Builtin::Size),
        overload("startsWith"@, "starts_with_string"@, Some(Type { kind: Kind::String }), seq![Type { kind: Kind::String }], Builtin::StartsWithString),
        overload("matches"@, "matches"@, Some(Type { kind: Kind::String }), seq![Type { kind: Kind::String }], Builtin::Matches),
    ]
}

/// Registers the standard functions on strings: `string` (of strings,
/// integers, unsigned integers, doubles and bytes), the members `contains`,
/// `endsWith`, `startsWith` and `matches`, and `size` (global and member).
pub fn stdlib(env: &mut Env)
    requires
        forall|i: int| 0 <= i < string_overloads().len() ==> !has_id(old(env)@, #[trigger] string_overloads()[i].id),
    ensures
        final(env)@ == old(env)@ + string_overloads(),
{
    let ghost start = env@;
    let ghost o = string_overloads();
    proof {
        lemma_standard_ids_distinct();
        lemma_split_distinct(bytes_overloads(), string_overloads());
        assert(start + o.take(0) =~= start);
        lemma_next_fresh(start, o, 0);
    }
    let _ = env.add_overload("string", "string_to_string", params_of(Kind::String), Builtin::StringToString);
    proof {
        assert(env@ =~= start + o.take(1));
        lemma_next_fresh(start, o, 1);
    }
    let _ = env.add_overload("string", "int64_to_string", params_of(Kind::Int), Builtin::StringToString);
    proof {
        assert(env@ =~= start + o.take(2));
        lemma_next_fresh(start, o, 2);
    }
    let _ = env.add_overload("string", "uint64_to_string", params_of(Kind::UInt), Builtin::StringToString);
    proof {
        assert(env@ =~= start + o.take(3));
        lemma_next_fresh(start, o, 3);
    }
    let _ = env.add_overload("string", "double_to_string", params_of(Kind::Double), Builtin::StringToString);
    proof {
        assert(env@ =~= start + o.take(4));
        lemma_next_fresh(start, o, 4);
    }
    let _ = env.add_overload("string", "bytes_to_string", params_of(Kind::Bytes), Builtin::StringToString);
    proof {
        assert(env@ =~= start + o.take(5));
        lemma_next_fresh(start, o, 5);
    }
    let _ = env.add_member_overload("contains", "contains_string", Type::new(Kind::String), params_of(Kind::String), Builtin::StringContains);
    proof {
        assert(env@ =~= start + o.take(6));
        lemma_next_fresh(start, o, 6);
    }
    let _ = env.add_member_overload("endsWith", "ends_with_string", Type::new(Kind::String), params_of(Kind::String), Builtin::EndsWithString);
    proof {
        assert(env@ =~= start + o.take(7));
        lemma_next_fresh(start, o, 7);
    }
    let _ = env.add_overload("size", "size_string", params_of(Kind::String), Builtin::Size);
    proof {
        assert(env@ =~= start + o.take(8));
        lemma_next_fresh(start, o, 8);
    }
    let _ = env.add_member_overload("size", "string_size", Type::new(Kind::String), no_params(), Builtin::Size);
    proof {
        assert(env@ =~= start + o.take(9));
        lemma_next_fresh(start, o, 9);
    }
    let _ = env.add_member_overload("startsWith", "starts_with_string", Type::new(Kind::String), params_of(Kind::String), Builtin::StartsWithString);
    proof {
        assert(env@ =~= start + o.take(10));
        lemma_next_fresh(start, o, 10);
    }
    let _ = env.add_member_overload("matches", "matches", Type::new(Kind::String), params_of(Kind::String), Builtin::Matches);
    proof {
        assert(env@ =~= start + o);
    }
}

/// A string contains `n` only if the encoding of `n` fits in its own; in
/// particular the empty string contains nothing but the empty string.
pub proof fn lemma_contains_needs_room(s: Seq<char>, n: Seq<char>)
    ensures
        str_contains(s, n) ==> encode_utf8(n).len() <= encode_utf8(s).len(),
        s.len() == 0 ==> (str_contains(s, n) <==> n.len() == 0),
{
    crate::common::text::lemma_occurs_in_iff_run(encode_utf8(n), encode_utf8(s));
    crate::common::text::lemma_encode_utf8_empty(s);
    crate::common::text::lemma_encode_utf8_empty(n);
}

/// Whatever surrounds `n`, the whole contains `n`: `a + n + b` contains `n`,
/// begins with `a` and ends with `b`.
pub proof fn lemma_contains_what_it_is_made_of(a: Seq<char>, n: Seq<char>, b: Seq<char>)
    ensures
        str_contains(a + n + b, n),
        str_starts_with(a + n + b, a),
        str_ends_with(a + n + b, b),
{
    let ea = encode_utf8(a);
    let en = encode_utf8(n);
    let eb = encode_utf8(b);
    crate::common::text::lemma_encode_utf8_concat(a, n);
    crate::common::text::lemma_encode_utf8_concat(a + n, b);
    let e = encode_utf8(a + n + b);
    assert(e == ea + en + eb);
    assert(e.subrange(ea.len() as int, (ea.len() + en.len()) as int) =~= en);
    assert(occurs_at(en, e, ea.len() as int));
    assert(e.subrange(0, ea.len() as int) =~= ea);
    assert(e.subrange(e.len() - eb.len(), e.len() as int) =~= eb);
}

/// A string that begins with `p` contains `p`.
pub proof fn lemma_starts_with_contains(s: Seq<char>, p: Seq<char>)
    requires
        str_starts_with(s, p),
    ensures
        str_contains(s, p),
{
    assert(occurs_at(encode_utf8(p), encode_utf8(s), 0));
}

/// A string that ends with `p` contains `p`.
pub proof fn lemma_ends_with_contains(s: Seq<char>, p: Seq<char>)
    requires
        str_ends_with(s, p),
    ensures
        str_contains(s, p),
{
    let e = encode_utf8(s);
    let f = encode_utf8(p);
    assert(occurs_at(f, e, e.len() - f.len()));
}

/// Every string begins with, ends with and contains itself and the empty
/// string.
pub proof fn lemma_contains_self_and_empty(s: Seq<char>)
    ensures
        str_starts_with(s, s),
        str_ends_with(s, s),
        str_contains(s, s),
        str_starts_with(s, Seq::empty()),
        str_ends_with(s, Seq::empty()),
        str_contains(s, Seq::empty()),
{
    let e = encode_utf8(s);
    let z = encode_utf8(Seq::<char>::empty());
    assert(z =~= Seq::<u8>::empty());
    assert(e.subrange(0, e.len() as int) =~= e);
    assert(e.subrange(0, 0) =~= z);
    assert(e.subrange(e.len() as int, e.len() as int) =~= z);
    assert(occurs_at(e, e, 0));
    assert(occurs_at(z, e, 0));
}

/// A concatenation `a + b` begins with `a`, ends with `b`, and is as long in
/// bytes of UTF-8 as `a` and `b` together.
pub proof fn lemma_concat_parts(a: Seq<char>, b: Seq<char>)
    ensures
        str_starts_with(a + b, a),
        str_ends_with(a + b, b),
        encode_utf8(a + b).len() == encode_utf8(a).len() + encode_utf8(b).len(),
{
    crate::common::text::lemma_encode_utf8_concat(a, b);
    let ea = encode_utf8(a);
    let eb = encode_utf8(b);
    let e = encode_utf8(a + b);
    assert(e.subrange(0, ea.len() as int) =~= ea);
    assert(e.subrange(ea.len() as int, e.len() as int) =~= eb);
}

/// Two strings compare equal exactly when they have the same characters.
pub proof fn lemma_string_order_equal(a: Seq<char>, b: Seq<char>)
    ensures
        (lex_sign(encode_utf8(a), encode_utf8(b)) == 0) == (a == b),
{
    crate::common::order::lemma_lex_sign_zero_iff_equal(encode_utf8(a), encode_utf8(b));
    if encode_utf8(a) == encode_utf8(b) {
        assert(decode_utf8(encode_utf8(a)) == a);
        assert(decode_utf8(encode_utf8(b)) == b);
    }
}

/// A string is the zero value of its type exactly when its size is 0.
pub proof fn lemma_zero_value_iff_size_zero(s: Seq<char>)
    ensures
        (s.len() == 0) == (encode_utf8(s).len() == 0),
{
    crate::common::text::lemma_encode_utf8_empty(s);
}

/// Converting a string to bytes and the bytes back to a string gives the
/// string again.
pub proof fn lemma_string_bytes_round_trip(s: Seq<char>)
    ensures
        string_of(CelValue::Bytes(encode_utf8(s))) == Some(s),
{
    assert(valid_utf8(encode_utf8(s)));
    assert(decode_utf8(encode_utf8(s)) == s);
}

} // verus!
