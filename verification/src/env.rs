//! The environment of CEL functions: the overloads that expressions may
//! call, under which function names, for which argument types.
use vstd::prelude::*;
use std::string::String as StdString;
use crate::common::text::str_equal;
use crate::common::types::Type;
use crate::common::types::bytes::{bytes_overloads, stdlib as bytes_stdlib};
use crate::common::types::string::{string_overloads, stdlib as string_stdlib};

verus! {

/// The standard functions that an overload may run.
#[derive(Clone, Copy, Debug, PartialEq, Eq, Structural)]
pub enum Builtin {
    /// `bytes(string)`: the UTF-8 encoding of a string.
    StringToBytes,
    /// `bytes(bytes)`: the argument itself.
    BytesToBytes,
    /// `size`: the length of a string (in bytes of UTF-8) or of bytes.
    Size,
    /// `string(value)`: the text of a value.
    StringToString,
    /// `string.contains(string)`.
    StringContains,
    /// `string.endsWith(string)`.
    EndsWithString,
    /// `string.startsWith(string)`.
    StartsWithString,
    /// `string.matches(regex)`.
    Matches,
}

/// One overload of a function: the function's name, the overload's own
/// identifier, the type of the receiver for a member function, the types of
/// the arguments, and what runs.
pub struct Overload {
    pub function: StdString,
    pub id: StdString,
    pub receiver: Option<Type>,
    pub params: Vec<Type>,
    pub builtin: Builtin,
}

/// What an overload is, in the values of its parts.
pub struct OverloadView {
    pub function: Seq<char>,
    pub id: Seq<char>,
    pub receiver: Option<Type>,
    pub params: Seq<Type>,
    pub builtin: Builtin,
}

impl View for Overload {
    type V = OverloadView;

    open spec fn view(&self) -> OverloadView {
        OverloadView {
            function: self.function@,
            id: self.id@,
            receiver: self.receiver,
            params: self.params@,
            builtin: self.builtin,
        }
    }
}

/// An overload of `function`, identified by `id`.
pub open spec fn overload(
    function: Seq<char>,
    id: Seq<char>,
    receiver: Option<Type>,
    params: Seq<Type>,
    builtin: Builtin,
) -> OverloadView {
    OverloadView { function, id, receiver, params, builtin }
}

/// Whether an overload among `overloads` has the identifier `id`.
pub open spec fn has_id(overloads: Seq<OverloadView>, id: Seq<char>) -> bool {
    exists|i: int| 0 <= i < overloads.len() && #[trigger] overloads[i].id == id
}

/// An identifier that none of `s` and none of `added` has is fresh after
/// `added` follows `s`.
pub proof fn lemma_fresh_after(s: Seq<OverloadView>, added: Seq<OverloadView>, id: Seq<char>)
    requires
        !has_id(s, id),
        forall|i: int| 0 <= i < added.len() ==> #[trigger] added[i].id != id,
    ensures
        !has_id(s + added, id),
{
    assert forall|i: int| 0 <= i < (s + added).len() implies #[trigger] (s + added)[i].id != id by {
        if i < s.len() {
            assert((s + added)[i] == s[i]);
        } else {
            assert((s + added)[i] == added[i - s.len()]);
        }
    }
}

/// Whether no identifier occurs twice among `overloads`.
pub open spec fn ids_distinct(overloads: Seq<OverloadView>) -> bool {
    forall|i: int, j: int|
        0 <= i < overloads.len() && 0 <= j < overloads.len() && i != j ==> #[trigger] overloads[i].id
            != #[trigger] overloads[j].id
}

/// When the identifiers of `a + b` are distinct, so are those of `a` and of
/// `b`, and no identifier of `b` is one of `a`.
pub proof fn lemma_split_distinct(a: Seq<OverloadView>, b: Seq<OverloadView>)
    requires
        ids_distinct(a + b),
    ensures
        ids_distinct(a),
        ids_distinct(b),
        forall|k: int| 0 <= k < b.len() ==> !has_id(a, #[trigger] b[k].id),
{
    let ab = a + b;
    assert forall|i: int, j: int|
        0 <= i < a.len() && 0 <= j < a.len() && i != j implies #[trigger] a[i].id != #[trigger] a[j].id by {
        assert(ab[i] == a[i] && ab[j] == a[j]);
    }
    assert forall|i: int, j: int|
        0 <= i < b.len() && 0 <= j < b.len() && i != j implies #[trigger] b[i].id != #[trigger] b[j].id by {
        assert(ab[a.len() + i] == b[i] && ab[a.len() + j] == b[j]);
    }
    assert forall|k: int| 0 <= k < b.len() implies !has_id(a, #[trigger] b[k].id) by {
        assert forall|i: int| 0 <= i < a.len() implies #[trigger] a[i].id != b[k].id by {
            assert(ab[i] == a[i] && ab[a.len() + k] == b[k]);
        }
    }
}

/// Registering the overloads `list` one after the other, in order, on top of
/// `start`: when their identifiers are distinct and none is one of `start`,
/// the identifier of the next one to register is fresh.
pub proof fn lemma_next_fresh(start: Seq<OverloadView>, list: Seq<OverloadView>, k: int)
    requires
        ids_distinct(list),
        forall|i: int| 0 <= i < list.len() ==> !has_id(start, #[trigger] list[i].id),
        0 <= k < list.len(),
    ensures
        !has_id(start + list.take(k), list[k].id),
{
    assert forall|i: int| 0 <= i < list.take(k).len() implies #[trigger] list.take(k)[i].id != list[k].id by {
        assert(list.take(k)[i] == list[i]);
    }
    assert(!has_id(start, list[k].id));
    lemma_fresh_after(start, list.take(k), list[k].id);
}

/// Why an overload could not be added.
#[derive(Debug, PartialEq)]
pub enum EnvError {
    /// An overload with this identifier is registered already.
    DuplicateId(StdString),
}

/// The registry of function overloads that expressions may call. No two
/// overloads have the same identifier.
pub struct Env {
    overloads: Vec<Overload>,
}

impl View for Env {
    type V = Seq<OverloadView>;

    closed spec fn view(&self) -> Seq<OverloadView> {
        self.overloads@.map_values(|o: Overload| o@)
    }
}

impl Env {
    #[verifier::type_invariant]
    spec fn distinct(&self) -> bool {
        ids_distinct(self@)
    }

    /// An environment with no overloads.
    pub fn new() -> (e: Env)
        ensures
            e@ == Seq::<OverloadView>::empty(),
    {
        let e = Env { overloads: Vec::new() };
        assert(e@ =~= Seq::<OverloadView>::empty());
        e
    }

    /// Whether an overload with identifier `id` is registered.
    pub fn contains_id(&self, id: &str) -> (r: bool)
        ensures
            r == has_id(self@, id@),
    {
        let mut i: usize = 0;
        while i < self.overloads.len()
            invariant
                i <= self.overloads@.len(),
                self@.len() == self.overloads@.len(),
                forall|j: int| 0 <= j < self@.len() ==> #[trigger] self@[j] == self.overloads@[j]@,
                forall|j: int| 0 <= j < i ==> #[trigger] self@[j].id != id@,
            decreases self.overloads@.len() - i,
        {
            if str_equal(self.overloads[i].id.as_str(), id) {
                assert(self@[i as int].id == id@);
                return true;
            }
            i = i + 1;
        }
        false
    }

    fn register(
        &mut self,
        function: &str,
        id: &str,
        receiver: Option<Type>,
        params: Vec<Type>,
        builtin: Builtin,
    ) -> (r: Result<(), EnvError>)
        ensures
            has_id(old(self)@, id@) ==> r is Err && final(self)@ == old(self)@,
            !has_id(old(self)@, id@) ==> r is Ok && final(self)@ == old(self)@.push(
                overload(function@, id@, receiver, params@, builtin),
            ),
    {
        if self.contains_id(id) {
            return Err(EnvError::DuplicateId(id.to_owned()));
        }
        proof {
            use_type_invariant(&*self);
        }
        let mut overloads: Vec<Overload> = Vec::new();
        std::mem::swap(&mut overloads, &mut self.overloads);
        let ghost before = overloads@;
        let o = Overload {
            function: function.to_owned(),
            id: id.to_owned(),
            receiver,
            params,
            builtin,
        };
        overloads.push(o);
        proof {
            let v = overloads@.map_values(|o: Overload| o@);
            assert(v =~= before.map_values(|o: Overload| o@).push(o@));
            assert forall|i: int, j: int|
                0 <= i < v.len() && 0 <= j < v.len() && i != j implies #[trigger] v[i].id
                != #[trigger] v[j].id by {
                if i < before.len() && j < before.len() {
                    assert(v[i] == before.map_values(|o: Overload| o@)[i]);
                    assert(v[j] == before.map_values(|o: Overload| o@)[j]);
                }
            }
        }
        self.overloads = overloads;
        proof {
            assert(self@ =~= old(self)@.push(overload(function@, id@, receiver, params@, builtin)));
        }
        Ok(())
    }

    /// Adds an overload of the global function `function`, identified by
    /// `id`, for arguments of the types `params`. An identifier that is
    /// registered already is refused, and the environment is left as it was.
    pub fn add_overload(&mut self, function: &str, id: &str, params: Vec<Type>, builtin: Builtin) -> (r: Result<(), EnvError>)
        ensures
            has_id(old(self)@, id@) ==> r is Err && final(self)@ == old(self)@,
            !has_id(old(self)@, id@) ==> r is Ok && final(self)@ == old(self)@.push(
                overload(function@, id@, None, params@, builtin),
            ),
    {
        self.register(function, id, None, params, builtin)
    }

    /// Adds an overload of the member function `function` of values of type
    /// `receiver`, identified by `id`, for arguments of the types `params`.
    /// An identifier that is registered already is refused, and the
    /// environment is left as it was.
    pub fn add_member_overload(
        &mut self,
        function: &str,
        id: &str,
        receiver: Type,
        params: Vec<Type>,
        builtin: Builtin,
    ) -> (r: Result<(), EnvError>)
        ensures
            has_id(old(self)@, id@) ==> r is Err && final(self)@ == old(self)@,
            !has_id(old(self)@, id@) ==> r is Ok && final(self)@ == old(self)@.push(
                overload(function@, id@, Some(receiver), params@, builtin),
            ),
    {
        self.register(function, id, Some(receiver), params, builtin)
    }
}

/// The overloads of the standard environment, in order.
pub open spec fn standard_overloads() -> Seq<OverloadView> {
    bytes_overloads() + string_overloads()
}

/// What tells identifiers apart at a glance: their length and their first
/// two characters.
spec fn id_key(id: Seq<char>) -> (nat, char, char) {
    (id.len(), id[0], id[1])
}

/// No two standard overloads have the same identifier.
pub proof fn lemma_standard_ids_distinct()
    ensures
        ids_distinct(standard_overloads()),
{
    reveal_strlit("string_to_bytes");
    reveal_strlit("bytes_to_bytes");
    reveal_strlit("size_bytes");
    reveal_strlit("bytes_size");
    reveal_strlit("string_to_string");
    reveal_strlit("int64_to_string");
    reveal_strlit("uint64_to_string");
    reveal_strlit("double_to_string");
    reveal_strlit("bytes_to_string");
    reveal_strlit("contains_string");
    reveal_strlit("ends_with_string");
    reveal_strlit("size_string");
    reveal_strlit("string_size");
    reveal_strlit("starts_with_string");
    reveal_strlit("matches");
    let s = standard_overloads();
    let keys = Seq::new(s.len(), |i: int| id_key(s[i].id));
    assert(keys =~= seq![
        (15nat, 's', 't'), (14nat, 'b', 'y'), (10nat, 's', 'i'), (10nat, 'b', 'y'),
        (16nat, 's', 't'), (15nat, 'i', 'n'), (16nat, 'u', 'i'), (16nat, 'd', 'o'),
        (15nat, 'b', 'y'), (15nat, 'c', 'o'), (16nat, 'e', 'n'), (11nat, 's', 'i'),
        (11nat, 's', 't'), (18nat, 's', 't'), (7nat, 'm', 'a'),
    ]);
    assert forall|i: int, j: int|
        0 <= i < s.len() && 0 <= j < s.len() && i != j implies #[trigger] s[i].id != #[trigger] s[j].id by {
        assert(keys[i] != keys[j]);
    }
}

impl Env {
    /// The environment with the standard functions on bytes and strings.
    pub fn stdlib() -> (e: Env)
        ensures
            e@ == standard_overloads(),
    {
        let mut env = Env::new();
        bytes_stdlib(&mut env);
        proof {
            assert(Seq::<OverloadView>::empty() + bytes_overloads() =~= bytes_overloads());
            lemma_standard_ids_distinct();
            lemma_split_distinct(bytes_overloads(), string_overloads());
        }
        string_stdlib(&mut env);
        proof {
            assert(env@ =~= standard_overloads());
        }
        env
    }
}

impl Default for Env {
    fn default() -> (e: Env)
        ensures
            e@ == Seq::<OverloadView>::empty(),
    {
        Env::new()
    }
}

} // verus!
