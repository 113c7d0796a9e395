//! Variable scopes: the context in which CEL expressions are evaluated.
use vstd::prelude::*;
use std::borrow::Cow;
use std::string::String as StdString;
use std::sync::Arc;
use crate::common::text::str_equal;
use crate::common::value::AnyVal;
use crate::env::Env;

verus! {

/// A variable's value as a context holds it.
pub enum StoredValue<'a> {
    /// A value that the context owns.
    Owned(AnyVal<'static>),
    /// A value that lives outside the context, for `'a`.
    Borrowed(&'a AnyVal<'a>),
    /// An owned value that may borrow data that lives for `'a`, such as a
    /// [`crate::StrRef`] or a [`crate::BytesRef`].
    OwnedBorrowing(AnyVal<'a>),
}

impl<'a> StoredValue<'a> {
    /// The value, however it is held.
    pub open spec fn value(&self) -> AnyVal<'a> {
        match self {
            StoredValue::Owned(v) => *v,
            StoredValue::Borrowed(v) => **v,
            StoredValue::OwnedBorrowing(v) => *v,
        }
    }

    /// The value, borrowed.
    pub fn get(&self) -> (r: &AnyVal<'a>)
        ensures
            *r == self.value(),
    {
        match self {
            StoredValue::Owned(v) => v,
            StoredValue::Borrowed(v) => *v,
            StoredValue::OwnedBorrowing(v) => v,
        }
    }
}

/// The value that a `Cow` holds, whether borrowed or owned.
pub open spec fn cow_value<'a>(c: Cow<'a, AnyVal<'a>>) -> AnyVal<'a> {
    match c {
        Cow::Borrowed(v) => *v,
        Cow::Owned(v) => v,
    }
}

/// The value that an optional `Cow` holds.
pub open spec fn found_value<'a>(r: Option<Cow<'a, AnyVal<'a>>>) -> Option<AnyVal<'a>> {
    match r {
        Some(c) => Some(cow_value(c)),
        None => None,
    }
}

/// The value that the entries give a name: that of the last entry with the
/// name, if any.
pub open spec fn entry_lookup<'a>(entries: Seq<(StdString, StoredValue<'a>)>, name: Seq<char>) -> Option<StoredValue<'a>>
    decreases entries.len(),
{
    if entries.len() == 0 {
        None
    } else if entries.last().0@ == name {
        Some(entries.last().1)
    } else {
        entry_lookup(entries.drop_last(), name)
    }
}

/// Whether no name occurs twice among the entries.
pub open spec fn names_distinct<'a>(entries: Seq<(StdString, StoredValue<'a>)>) -> bool {
    forall|i: int, j: int|
        0 <= i < entries.len() && 0 <= j < entries.len() && i != j ==> #[trigger] entries[i].0@
            != #[trigger] entries[j].0@
}

proof fn lemma_lookup_push<'a>(
    entries: Seq<(StdString, StoredValue<'a>)>,
    e: (StdString, StoredValue<'a>),
    name: Seq<char>,
)
    ensures
        entry_lookup(entries.push(e), name) == if e.0@ == name {
            Some(e.1)
        } else {
            entry_lookup(entries, name)
        },
{
    assert(entries.push(e).drop_last() =~= entries);
}

proof fn lemma_lookup_absent<'a>(entries: Seq<(StdString, StoredValue<'a>)>, name: Seq<char>)
    requires
        forall|i: int| 0 <= i < entries.len() ==> #[trigger] entries[i].0@ != name,
    ensures
        entry_lookup(entries, name) is None,
    decreases entries.len(),
{
    if entries.len() > 0 {
        lemma_lookup_absent(entries.drop_last(), name);
    }
}

proof fn lemma_lookup_at<'a>(entries: Seq<(StdString, StoredValue<'a>)>, i: int)
    requires
        names_distinct(entries),
        0 <= i < entries.len(),
    ensures
        entry_lookup(entries, entries[i].0@) == Some(entries[i].1),
    decreases entries.len(),
{
    if i < entries.len() - 1 {
        assert(entries.last().0@ != entries[i].0@);
        assert(entries.drop_last()[i] == entries[i]);
        lemma_lookup_at(entries.drop_last(), i);
    }
}

proof fn lemma_lookup_update<'a>(
    entries: Seq<(StdString, StoredValue<'a>)>,
    i: int,
    e: (StdString, StoredValue<'a>),
    name: Seq<char>,
)
    requires
        names_distinct(entries),
        0 <= i < entries.len(),
        entries[i].0@ == e.0@,
    ensures
        entry_lookup(entries.update(i, e), name) == if e.0@ == name {
            Some(e.1)
        } else {
            entry_lookup(entries, name)
        },
    decreases entries.len(),
{
    let u = entries.update(i, e);
    if i == entries.len() - 1 {
        assert(u.drop_last() =~= entries.drop_last());
    } else {
        assert(u.drop_last() =~= entries.drop_last().update(i, e));
        assert(entries.last().0@ != entries[i].0@);
        assert(names_distinct(entries.drop_last()));
        lemma_lookup_update(entries.drop_last(), i, e, name);
    }
}

/// The position of the entry for `name`, if there is one.
fn entry_position<'a>(entries: &Vec<(StdString, StoredValue<'a>)>, name: &str) -> (r: Option<usize>)
    ensures
        match r {
            Some(i) => i < entries@.len() && entries@[i as int].0@ == name@,
            None => forall|i: int| 0 <= i < entries@.len() ==> #[trigger] entries@[i].0@ != name@,
        },
{
    let mut i: usize = 0;
    while i < entries.len()
        invariant
            i <= entries@.len(),
            forall|j: int| 0 <= j < i ==> #[trigger] entries@[j].0@ != name@,
        decreases entries@.len() - i,
    {
        if str_equal(entries[i].0.as_str(), name) {
            return Some(i);
        }
        i = i + 1;
    }
    None
}

/// The variables of one scope: at most one value for each name.
pub struct Variables<'a> {
    entries: Vec<(StdString, StoredValue<'a>)>,
}

impl<'a> View for Variables<'a> {
    type V = Map<Seq<char>, StoredValue<'a>>;

    closed spec fn view(&self) -> Map<Seq<char>, StoredValue<'a>> {
        Map::new(
            |name: Seq<char>| entry_lookup(self.entries@, name) is Some,
            |name: Seq<char>| entry_lookup(self.entries@, name).unwrap(),
        )
    }
}

impl<'a> Variables<'a> {
    #[verifier::type_invariant]
    spec fn distinct(&self) -> bool {
        names_distinct(self.entries@)
    }

    /// No variables.
    pub fn new() -> (v: Variables<'a>)
        ensures
            v@ == Map::<Seq<char>, StoredValue<'a>>::empty(),
    {
        let v = Variables { entries: Vec::new() };
        assert(v@ =~= Map::<Seq<char>, StoredValue<'a>>::empty());
        v
    }

    /// The value of the variable `name`, if it has one.
    pub fn get(&self, name: &str) -> (r: Option<&StoredValue<'a>>)
        ensures
            match r {
                Some(v) => self@.contains_key(name@) && *v == self@[name@],
                None => !self@.contains_key(name@),
            },
    {
        proof {
            use_type_invariant(self);
        }
        match entry_position(&self.entries, name) {
            Some(i) => {
                proof {
                    lemma_lookup_at(self.entries@, i as int);
                }
                Some(&self.entries[i].1)
            },
            None => {
                proof {
                    lemma_lookup_absent(self.entries@, name@);
                }
                None
            },
        }
    }

    /// Gives the variable `name` the value `value`, in place of any value it
    /// had.
    pub fn insert(&mut self, name: StdString, value: StoredValue<'a>)
        ensures
            final(self)@ == old(self)@.insert(name@, value),
    {
        proof {
            use_type_invariant(&*self);
        }
        let mut entries: Vec<(StdString, StoredValue<'a>)> = Vec::new();
        std::mem::swap(&mut entries, &mut self.entries);
        let ghost before = entries@;
        let ghost key = name@;
        match entry_position(&entries, name.as_str()) {
            Some(i) => {
                proof {
                    assert forall|k: Seq<char>| #[trigger] entry_lookup(before.update(i as int, (name, value)), k)
                        == if key == k { Some(value) } else { entry_lookup(before, k) } by {
                        lemma_lookup_update(before, i as int, (name, value), k);
                    }
                    assert(names_distinct(before.update(i as int, (name, value))));
                }
                entries.set(i, (name, value));
            },
            None => {
                proof {
                    assert forall|k: Seq<char>| #[trigger] entry_lookup(before.push((name, value)), k)
                        == if key == k { Some(value) } else { entry_lookup(before, k) } by {
                        lemma_lookup_push(before, (name, value), k);
                    }
                    assert(names_distinct(before.push((name, value))));
                }
                entries.push((name, value));
            },
        }
        self.entries = entries;
        proof {
            assert(self@ =~= old(self)@.insert(key, value));
        }
    }
}

/// `x`, as a present optional value. (Built generically, so that a trait
/// object is stored as it was handed over.)
fn present<T>(x: T) -> (o: Option<T>)
    ensures
        o == Some(x),
{
    Some(x)
}

/// A custom resolver for variables, consulted before the variables added
/// to the context. It allows variables whose values the resolver computes
/// from its own data, or avoiding the creation of and lookup in a map of
/// variables.
///
/// Returning [`Cow::Borrowed`] from `resolve` allows zero-copy access: the
/// returned reference points into the resolver's own data, and the context
/// hands it on as it is.
///
/// A resolver must answer each name consistently: `resolved` names the
/// answer (borrowed or owned) that it gives each variable as long as it is
/// lent to a context, and `resolve` must return exactly that answer.
pub trait VariableResolver: Send + Sync {
    /// The answer that the resolver gives for `variable`, if any.
    spec fn resolved<'a>(&'a self, variable: Seq<char>) -> Option<Cow<'a, AnyVal<'a>>>;

    fn resolve<'a>(&'a self, variable: &str) -> (r: Option<Cow<'a, AnyVal<'a>>>)
        ensures
            r == self.resolved(variable@),
    ;
}

impl<T: VariableResolver> VariableResolver for Box<T> {
    open spec fn resolved<'a>(&'a self, variable: Seq<char>) -> Option<Cow<'a, AnyVal<'a>>> {
        (**self).resolved(variable)
    }

    /// What the boxed resolver answers.
    fn resolve<'a>(&'a self, variable: &str) -> (r: Option<Cow<'a, AnyVal<'a>>>)
        ensures
            call_ensures(T::resolve, (&**self, variable), r),
    {
        (**self).resolve(variable)
    }
}

impl<T: VariableResolver> VariableResolver for Arc<T> {
    open spec fn resolved<'a>(&'a self, variable: Seq<char>) -> Option<Cow<'a, AnyVal<'a>>> {
        (**self).resolved(variable)
    }

    /// What the shared resolver answers.
    fn resolve<'a>(&'a self, variable: &str) -> (r: Option<Cow<'a, AnyVal<'a>>>)
        ensures
            call_ensures(T::resolve, (&**self, variable), r),
    {
        (**self).resolve(variable)
    }
}

impl<'r, T: VariableResolver> VariableResolver for &'r T {
    open spec fn resolved<'a>(&'a self, variable: Seq<char>) -> Option<Cow<'a, AnyVal<'a>>> {
        (**self).resolved(variable)
    }

    /// What the referenced resolver answers.
    fn resolve<'a>(&'a self, variable: &str) -> (r: Option<Cow<'a, AnyVal<'a>>>)
        ensures
            call_ensures(T::resolve, (&**self, variable), r),
    {
        (**self).resolve(variable)
    }
}

/// A set of variables can serve as a resolver: it answers for the names it
/// has, lending their values.
impl<'v> VariableResolver for Variables<'v> {
    open spec fn resolved<'a>(&'a self, variable: Seq<char>) -> Option<Cow<'a, AnyVal<'a>>> {
        if self@.contains_key(variable) {
            Some(Cow::Borrowed(&self@[variable].value()))
        } else {
            None
        }
    }

    fn resolve<'a>(&'a self, variable: &str) -> (r: Option<Cow<'a, AnyVal<'a>>>) {
        match self.get(variable) {
            Some(stored) => Some(Cow::Borrowed(stored.get())),
            None => None,
        }
    }
}

/// Context is a collection of variables and functions that can be used by
/// the interpreter to resolve expressions.
///
/// The context is either a root context or a child context. A root context
/// holds the environment of functions. A child context, made by
/// [`Context::new_inner_scope`], has its own variables (which can be added
/// to) and refers to its parent: variables may be overridden within the
/// child while those of its parents remain visible. Contexts can nest to any
/// depth.
///
/// This matters for CEL macros such as `.map`, which declare intermediate
/// identifiers that should only be visible within the macro and should not
/// override variables of the parent context: the macro makes a child
/// context, adds the identifier to it, and evaluates the expression there.
///
/// ```text
/// [1, 2, 3].map(x, x * 2) == [2, 4, 6]
/// ```
///
/// Here `x` is in scope only for the duration of the map expression.
pub enum Context<'a> {
    Root {
        variables: Variables<'a>,
        resolver: Option<&'a dyn VariableResolver>,
        env: Arc<Env>,
    },
    Child {
        parent: &'a Context<'a>,
        variables: Variables<'a>,
        resolver: Option<&'a dyn VariableResolver>,
    },
}

impl<'a> Context<'a> {
    /// The variables of this scope alone.
    pub open spec fn vars(&self) -> Map<Seq<char>, StoredValue<'a>> {
        match self {
            Context::Root { variables, .. } => variables@,
            Context::Child { variables, .. } => variables@,
        }
    }

    /// The resolver of this scope alone.
    pub open spec fn resolver_of(&self) -> Option<&'a dyn VariableResolver> {
        match self {
            Context::Root { resolver, .. } => *resolver,
            Context::Child { resolver, .. } => *resolver,
        }
    }

    /// The parent scope, for a child context.
    pub open spec fn parent_of(&self) -> Option<&'a Context<'a>> {
        match self {
            Context::Root { .. } => None,
            Context::Child { parent, .. } => Some(*parent),
        }
    }

    /// The answer of the resolver of this scope for `name`, as it gives it,
    /// if the scope has a resolver and it answers.
    pub open spec fn resolver_reply(&self, name: Seq<char>) -> Option<Cow<'a, AnyVal<'a>>> {
        match self.resolver_of() {
            Some(r) => r.resolved(name),
            None => None,
        }
    }

    /// The value that the resolver of this scope gives `name`, if the scope
    /// has a resolver and it answers.
    pub open spec fn resolver_answer(&self, name: Seq<char>) -> Option<AnyVal<'a>> {
        found_value(self.resolver_reply(name))
    }

    /// The value of a variable as the scopes give it, the innermost first:
    /// in each scope, the answer of its resolver, else its own variable, else
    /// what the scopes around it give.
    pub open spec fn lookup(&self, name: Seq<char>) -> Option<AnyVal<'a>>
        decreases self,
    {
        if self.resolver_answer(name) is Some {
            self.resolver_answer(name)
        } else if self.vars().contains_key(name) {
            Some(self.vars()[name].value())
        } else {
            match self {
                Context::Root { .. } => None,
                Context::Child { parent, .. } => parent.lookup(name),
            }
        }
    }

    /// The value of a variable as this scope gives it when its own resolver
    /// does not answer: its own variable, else what the scopes around it
    /// give.
    pub open spec fn scope_lookup(&self, name: Seq<char>) -> Option<AnyVal<'a>> {
        if self.vars().contains_key(name) {
            Some(self.vars()[name].value())
        } else {
            self.outer_lookup(name)
        }
    }

    /// The value of a variable as the scopes around this one give it.
    pub open spec fn outer_lookup(&self, name: Seq<char>) -> Option<AnyVal<'a>> {
        match self {
            Context::Root { .. } => None,
            Context::Child { parent, .. } => parent.lookup(name),
        }
    }

    /// Whether `r` is the variable of this scope named `name`, borrowed from
    /// where the scope keeps it.
    pub open spec fn borrows_own_variable(&self, name: Seq<char>, r: Option<Cow<'a, AnyVal<'a>>>) -> bool {
        r matches Some(Cow::Borrowed(v)) && *v == self.vars()[name].value()
    }

    /// Whether `r` is what the scopes hand out for `name`, the innermost
    /// first: in each scope, the answer of its resolver exactly as the
    /// resolver gave it (borrowed or owned), else the scope's variable,
    /// borrowed from where the scope keeps it; nothing where no scope has it.
    pub open spec fn lends(&self, name: Seq<char>, r: Option<Cow<'a, AnyVal<'a>>>) -> bool
        decreases self,
    {
        if self.resolver_reply(name) is Some {
            r == self.resolver_reply(name)
        } else if self.vars().contains_key(name) {
            self.borrows_own_variable(name, r)
        } else {
            match self {
                Context::Root { .. } => r is None,
                Context::Child { parent, .. } => parent.lends(name, r),
            }
        }
    }

    /// Whether `r` is what the scopes around this one lend for `name`.
    pub open spec fn outer_lends(&self, name: Seq<char>, r: Option<Cow<'a, AnyVal<'a>>>) -> bool {
        match self {
            Context::Root { .. } => r is None,
            Context::Child { parent, .. } => parent.lends(name, r),
        }
    }

    /// Whether no scope, from this one out, has a resolver.
    pub open spec fn resolver_free(&self) -> bool
        decreases self,
    {
        self.resolver_of() is None && match self {
            Context::Root { .. } => true,
            Context::Child { parent, .. } => parent.resolver_free(),
        }
    }

    /// Whether `new` is `old` with `stored` as the value of `name` in its own
    /// scope, and all else alike.
    pub open spec fn is_update(old: Self, new: Self, name: Seq<char>, stored: StoredValue<'a>) -> bool {
        &&& new.vars() == old.vars().insert(name, stored)
        &&& new.resolver_of() == old.resolver_of()
        &&& new.parent_of() == old.parent_of()
        &&& (new is Root) == (old is Root)
        &&& new.root_env() == old.root_env()
    }

    /// Looks a variable up, the resolver of this scope first: what the
    /// resolver gave (`resolved`), else the variable of this scope, else what
    /// the parent scope gives.
    pub fn get_variable_resolved(&'a self, name: &str, resolved: Option<Cow<'a, AnyVal<'a>>>) -> (r: Option<Cow<'a, AnyVal<'a>>>)
        ensures
            resolved is Some ==> r == resolved,
            resolved is None && self.vars().contains_key(name@) ==> self.borrows_own_variable(
                name@,
                r,
            ),
            resolved is None && !self.vars().contains_key(name@) ==> found_value(r)
                == self.outer_lookup(name@) && self.outer_lends(name@, r),
        decreases self, 0int,
    {
        match resolved {
            Some(v) => Some(v),
            None => match self {
                Context::Child { variables, parent, .. } => match variables.get(name) {
                    Some(value) => Some(Cow::Borrowed(value.get())),
                    None => parent.get_variable(name),
                },
                Context::Root { variables, .. } => match variables.get(name) {
                    Some(value) => Some(Cow::Borrowed(value.get())),
                    None => None,
                },
            },
        }
    }

    /// The value of a variable. Each scope, from this one out, first asks its
    /// resolver, then looks at its own variables, then defers to its parent.
    /// A resolver's answer is handed on as the resolver gave it (a borrowed
    /// answer stays borrowed); a variable of a scope is returned borrowed from
    /// where the scope keeps it, not copied.
    pub fn get_variable(&'a self, name: &str) -> (r: Option<Cow<'a, AnyVal<'a>>>)
        ensures
            found_value(r) == self.lookup(name@),
            self.lends(name@, r),
            self.resolver_reply(name@) is Some ==> r == self.resolver_reply(name@),
            self.resolver_answer(name@) is None && self.vars().contains_key(name@)
                ==> self.borrows_own_variable(name@, r),
        decreases self, 1int,
    {
        let resolver = match self {
            Context::Root { resolver, .. } => resolver,
            Context::Child { resolver, .. } => resolver,
        };
        let resolved = match resolver {
            Some(r) => r.resolve(name),
            None => None,
        };
        self.get_variable_resolved(name, resolved)
    }

    /// Gives the variable `name` of this scope the stored value `stored`, in
    /// place of any value it had.
    fn store(&mut self, name: &str, stored: StoredValue<'a>)
        ensures
            Self::is_update(*old(self), *final(self), name@, stored),
    {
        match self {
            Context::Root { variables, .. } => {
                variables.insert(name.to_owned(), stored);
            },
            Context::Child { variables, .. } => {
                variables.insert(name.to_owned(), stored);
            },
        }
    }

    /// Adds the variable `name`, given the outcome of converting its value:
    /// a value that converted is owned by this scope, in place of any value
    /// the name had here; a failed conversion is reported and leaves the
    /// context as it was.
    pub fn add_variable<E>(&mut self, name: &str, value: Result<AnyVal<'static>, E>) -> (r: Result<(), E>)
        ensures
            match value {
                Ok(v) => r is Ok && Self::is_update(*old(self), *final(self), name@, StoredValue::Owned(v)),
                Err(e) => r == Err::<(), E>(e) && *final(self) == *old(self),
            },
    {
        let value = match value {
            Ok(v) => v,
            Err(e) => return Err(e),
        };
        self.store(name, StoredValue::Owned(value));
        Ok(())
    }

    /// Adds the variable `name` with a value that this scope owns, in place of
    /// any value the name had here.
    pub fn add_variable_from_value(&mut self, name: &str, value: AnyVal<'static>)
        ensures
            Self::is_update(*old(self), *final(self), name@, StoredValue::Owned(value)),
    {
        self.store(name, StoredValue::Owned(value));
    }

    /// Adds the variable `name` with a value that lives outside the context,
    /// in place of any value the name had here.
    pub fn add_variable_ref(&mut self, name: &str, value: &'a AnyVal<'a>)
        ensures
            Self::is_update(*old(self), *final(self), name@, StoredValue::Borrowed(value)),
    {
        self.store(name, StoredValue::Borrowed(value));
    }

    /// Stores an owned value that may borrow data living for `'a` (such as a
    /// [`crate::StrRef`] or a [`crate::BytesRef`]) as the variable `name`, in
    /// place of any value the name had here. This is the entry point for
    /// zero-copy string and bytes variables: the data is owned elsewhere and
    /// is not copied into the context.
    pub fn add_variable_borrowed(&mut self, name: &str, value: AnyVal<'a>)
        ensures
            Self::is_update(*old(self), *final(self), name@, StoredValue::OwnedBorrowing(value)),
    {
        self.store(name, StoredValue::OwnedBorrowing(value));
    }

    /// Adds the variable `name` with a value that this scope owns, in place of
    /// any value the name had here.
    #[allow(dead_code)]
    pub(crate) fn add_variable_as_val(&mut self, name: &str, value: AnyVal<'static>)
        ensures
            Self::is_update(*old(self), *final(self), name@, StoredValue::Owned(value)),
    {
        self.store(name, StoredValue::Owned(value));
    }

    /// Makes `r` the resolver of this scope, in place of any it had.
    pub fn set_variable_resolver(&mut self, r: &'a dyn VariableResolver)
        ensures
            final(self).resolver_of() == Some(r),
            final(self).vars() == old(self).vars(),
            final(self).parent_of() == old(self).parent_of(),
            (*final(self) is Root) == (*old(self) is Root),
            final(self).root_env() == old(self).root_env(),
    {
        let chosen = present(r);
        match self {
            Context::Root { resolver, .. } => {
                *resolver = chosen;
            },
            Context::Child { resolver, .. } => {
                *resolver = chosen;
            },
        }
    }

    /// A child scope of this context, with no variables and no resolver of
    /// its own.
    pub fn new_inner_scope(&self) -> (c: Context<'_>)
        ensures
            c is Child,
            c.parent_of() == Some(self),
            c.vars() == Map::<Seq<char>, StoredValue<'_>>::empty(),
            c.resolver_of() is None,
            c.root_env() == self.root_env(),
            forall|name: Seq<char>| #[trigger] c.lookup(name) == self.lookup(name),
    {
        Context::Child { parent: self, variables: Variables::new(), resolver: None }
    }

    /// A new root context with no variables and no functions.
    ///
    /// For a context that has the standard functions already added, use
    /// `Context::default` instead.
    pub fn empty() -> (c: Context<'a>)
        ensures
            c is Root,
            c.vars() == Map::<Seq<char>, StoredValue<'a>>::empty(),
            c.resolver_of() is None,
            c.root_env()@ == Seq::<crate::env::OverloadView>::empty(),
    {
        Context::Root { env: Arc::new(Env::new()), variables: Variables::new(), resolver: None }
    }

    /// A new root context with no variables, whose functions are those of
    /// `env`.
    pub fn with_env(env: Arc<Env>) -> (c: Context<'a>)
        ensures
            c matches Context::Root { env: e, .. } && e == env,
            c.vars() == Map::<Seq<char>, StoredValue<'a>>::empty(),
            c.resolver_of() is None,
    {
        Context::Root { env, variables: Variables::new(), resolver: None }
    }

    /// The environment of functions: that of the root context.
    pub open spec fn root_env(&self) -> Env
        decreases self,
    {
        match self {
            Context::Root { env, .. } => **env,
            Context::Child { parent, .. } => parent.root_env(),
        }
    }

    /// The environment of functions, which the root context holds.
    #[allow(dead_code)]
    pub(crate) fn env(&self) -> (e: &Env)
        ensures
            *e == self.root_env(),
        decreases self,
    {
        match self {
            Context::Root { env, .. } => &**env,
            Context::Child { parent, .. } => parent.env(),
        }
    }
}

impl Default for Context<'_> {
    /// A new root context with no variables, whose functions are the standard
    /// ones.
    fn default() -> (c: Self)
        ensures
            c is Root,
            c.vars() == Map::<Seq<char>, StoredValue<'_>>::empty(),
            c.resolver_of() is None,
            c.root_env()@ == crate::env::standard_overloads(),
    {
        Context::Root { env: Arc::new(Env::stdlib()), variables: Variables::new(), resolver: None }
    }
}

/// Setting a variable in a scope (as every `add_variable*` method does):
/// looking the name up afterwards gives the value set, unless the scope's
/// resolver answers for the name, which it is asked first; every other name
/// gives what it gave before; the value is then read borrowed from where the
/// scope keeps it; and the resolvers and the functions are unchanged.
pub proof fn lemma_lookup_after_update<'a>(
    old: Context<'a>,
    new: Context<'a>,
    name: Seq<char>,
    stored: StoredValue<'a>,
)
    requires
        Context::is_update(old, new, name, stored),
    ensures
        new.lookup(name) == (if new.resolver_answer(name) is Some {
            new.resolver_answer(name)
        } else {
            Some(stored.value())
        }),
        new.resolver_answer(name) == old.resolver_answer(name),
        forall|k: Seq<char>| k != name ==> #[trigger] new.lookup(k) == old.lookup(k),
        forall|r: Option<Cow<'a, AnyVal<'a>>>| #[trigger] new.borrows_own_variable(name, r)
            <==> (r matches Some(Cow::Borrowed(v)) && *v == stored.value()),
        new.resolver_free() == old.resolver_free(),
        new.root_env() == old.root_env(),
{
    assert forall|k: Seq<char>| k != name implies #[trigger] new.lookup(k) == old.lookup(k) by {
        assert(new.vars().contains_key(k) == old.vars().contains_key(k));
        if !new.vars().contains_key(k) {
            match new {
                Context::Root { .. } => {},
                Context::Child { parent, .. } => {
                    assert(old.parent_of() == Some(parent));
                },
            }
        }
    }
    match new {
        Context::Root { .. } => {},
        Context::Child { parent, .. } => {
            assert(old.parent_of() == Some(parent));
        },
    }
}

/// Setting the resolver of a scope (as [`Context::set_variable_resolver`]
/// does): every name is then asked of the new resolver first, and its answer
/// is handed out exactly as the resolver gave it; where it does not answer,
/// the name is looked up in the scope's own variables and then its parents,
/// as before. A resolver the scope had before is no longer asked.
pub proof fn lemma_lookup_after_set_resolver<'a>(
    old: Context<'a>,
    new: Context<'a>,
    r: &'a dyn VariableResolver,
)
    requires
        new.resolver_of() == Some(r),
        new.vars() == old.vars(),
        new.parent_of() == old.parent_of(),
        (new is Root) == (old is Root),
        new.root_env() == old.root_env(),
    ensures
        forall|k: Seq<char>| #[trigger] new.lookup(k) == (match r.resolved(k) {
            Some(c) => Some(cow_value(c)),
            None => old.scope_lookup(k),
        }),
        forall|k: Seq<char>, x: Option<Cow<'a, AnyVal<'a>>>| r.resolved(k) is Some ==> (
        #[trigger] new.lends(k, x) <==> x == r.resolved(k)),
        forall|k: Seq<char>, x: Option<Cow<'a, AnyVal<'a>>>| r.resolved(k) is None ==> (
        #[trigger] new.lends(k, x) <==> if old.vars().contains_key(k) {
            old.borrows_own_variable(k, x)
        } else {
            old.outer_lends(k, x)
        }),
        new.root_env() == old.root_env(),
{
    assert forall|k: Seq<char>| #[trigger] new.lookup(k) == (match r.resolved(k) {
        Some(c) => Some(cow_value(c)),
        None => old.scope_lookup(k),
    }) by {
        match new {
            Context::Root { .. } => {},
            Context::Child { parent, .. } => {
                assert(old.parent_of() == Some(parent));
            },
        }
    }
    assert forall|k: Seq<char>, x: Option<Cow<'a, AnyVal<'a>>>| r.resolved(k) is None implies (
    #[trigger] new.lends(k, x) <==> if old.vars().contains_key(k) {
        old.borrows_own_variable(k, x)
    } else {
        old.outer_lends(k, x)
    }) by {
        match new {
            Context::Root { .. } => {},
            Context::Child { parent, .. } => {
                assert(old.parent_of() == Some(parent));
            },
        }
    }
}

/// A scope without variables or a resolver of its own sees exactly what its
/// parent sees; so does one made by [`Context::new_inner_scope`].
pub proof fn lemma_empty_scope_sees_parent<'a>(child: Context<'a>, parent: &'a Context<'a>)
    requires
        child.parent_of() == Some(parent),
        child.vars() == Map::<Seq<char>, StoredValue<'a>>::empty(),
        child.resolver_of() is None,
    ensures
        forall|k: Seq<char>| #[trigger] child.lookup(k) == parent.lookup(k),
        child.resolver_free() == parent.resolver_free(),
        child.root_env() == parent.root_env(),
{
}

/// In an inner scope, a name that its resolver does not answer for is its
/// own variable where it has one, which hides any variable of the same name
/// in the scopes around it; otherwise it is looked up in its parent.
pub proof fn lemma_inner_scope_shadows<'a>(child: Context<'a>, parent: &'a Context<'a>, name: Seq<char>)
    requires
        child.parent_of() == Some(parent),
    ensures
        child.resolver_answer(name) is Some ==> child.lookup(name) == child.resolver_answer(name),
        forall|x: Option<Cow<'a, AnyVal<'a>>>| child.resolver_reply(name) is Some ==> (
        #[trigger] child.lends(name, x) <==> x == child.resolver_reply(name)),
        forall|x: Option<Cow<'a, AnyVal<'a>>>| child.resolver_reply(name) is None && !child.vars().contains_key(name) ==> (
        #[trigger] child.lends(name, x) <==> parent.lends(name, x)),
        child.resolver_answer(name) is None && child.vars().contains_key(name) ==> child.lookup(name)
            == Some(child.vars()[name].value()),
        child.resolver_answer(name) is None && !child.vars().contains_key(name) ==> child.lookup(
            name,
        ) == parent.lookup(name),
{
}

/// Holds of every type that can be moved to another thread.
pub proof fn lemma_sendable<T: Send>() {
}

/// A context, whatever data it borrows for `'a`, can be moved to another
/// thread: every part of it (its variables, its resolver, its environment)
/// can.
pub proof fn lemma_context_is_send<'a>() {
    lemma_sendable::<Context<'a>>();
}

} // verus!
