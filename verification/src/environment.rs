//! Environments: the chain of scopes that names are looked up in.
//!
//! Scopes live in a store and refer to the scope that encloses them by its
//! index there, so that closures, call frames and blocks can share a scope
//! and see each other's writes. A scope always encloses scopes that were made
//! after it: walking outward goes to ever smaller indices and ends.

use crate::expr::{Literal, Value};
use vstd::prelude::*;

verus! {

/// One name with its value, as plain values.
pub struct BindingView {
    pub name: Seq<char>,
    pub value: Value,
}

/// One scope, as plain values: its bindings in the order they were first
/// defined, and the index of the scope that encloses it.
pub struct Scope {
    pub bindings: Seq<BindingView>,
    pub enclosing: Option<int>,
}

/// The first position at or after `from` at which `name` is bound, if any.
pub open spec fn binding_position(bindings: Seq<BindingView>, name: Seq<char>, from: int) -> Option<
    int,
>
    decreases bindings.len() - from,
{
    if from < 0 || from >= bindings.len() {
        None
    } else if bindings[from].name == name {
        Some(from)
    } else {
        binding_position(bindings, name, from + 1)
    }
}

/// The value that `bindings` give `name`, if they bind it.
pub open spec fn bound(bindings: Seq<BindingView>, name: Seq<char>) -> Option<Value> {
    match binding_position(bindings, name, 0) {
        Some(i) => Some(bindings[i].value),
        None => None,
    }
}

/// The bindings with `name` bound to `value`: in place of its earlier
/// binding, or as a new last binding.
pub open spec fn bind(bindings: Seq<BindingView>, name: Seq<char>, value: Value) -> Seq<
    BindingView,
> {
    match binding_position(bindings, name, 0) {
        Some(i) => bindings.update(i, BindingView { name, value }),
        None => bindings.push(BindingView { name, value }),
    }
}

impl Scope {
    /// The value bound to `name` in this scope, if it is bound here.
    pub open spec fn lookup(self, name: Seq<char>) -> Option<Value> {
        bound(self.bindings, name)
    }

    /// This scope with `name` bound to `value`.
    pub open spec fn define(self, name: Seq<char>, value: Value) -> Scope {
        Scope { bindings: bind(self.bindings, name, value), enclosing: self.enclosing }
    }
}

/// The index of the scope that is `depth` enclosing links outward from
/// `at`, if the chain is that long.
pub open spec fn ancestor(scopes: Seq<Scope>, at: int, depth: nat) -> Option<int>
    decreases depth,
{
    if at < 0 || at >= scopes.len() {
        None
    } else if depth == 0 {
        Some(at)
    } else {
        match scopes[at].enclosing {
            Some(outer) => ancestor(scopes, outer, (depth - 1) as nat),
            None => None,
        }
    }
}

/// The index of the innermost scope, from `at` outward, that binds `name`.
/// The walk goes on only to an enclosing scope of smaller index.
pub open spec fn holder(scopes: Seq<Scope>, at: int, name: Seq<char>) -> Option<int>
    decreases at,
{
    if at < 0 || at >= scopes.len() {
        None
    } else if scopes[at].lookup(name) is Some {
        Some(at)
    } else {
        match scopes[at].enclosing {
            Some(outer) => if 0 <= outer < at {
                holder(scopes, outer, name)
            } else {
                None
            },
            None => None,
        }
    }
}

/// The value of `name` as seen from scope `at`: that of the innermost scope
/// that binds it.
pub open spec fn get(scopes: Seq<Scope>, at: int, name: Seq<char>) -> Option<Value> {
    match holder(scopes, at, name) {
        Some(h) => scopes[h].lookup(name),
        None => None,
    }
}

/// The value of `name` in the scope `depth` links outward from `at`.
pub open spec fn get_at(scopes: Seq<Scope>, at: int, depth: nat, name: Seq<char>) -> Option<
    Value,
> {
    match ancestor(scopes, at, depth) {
        Some(a) => scopes[a].lookup(name),
        None => None,
    }
}

/// The scopes with `name` bound to `value` in scope `at`; unchanged where
/// there is no such scope.
pub open spec fn define(scopes: Seq<Scope>, at: int, name: Seq<char>, value: Value) -> Seq<Scope> {
    if 0 <= at < scopes.len() {
        scopes.update(at, scopes[at].define(name, value))
    } else {
        scopes
    }
}

/// The scopes after `name`, as seen from `at`, was given `value`; `None`
/// where no scope from `at` outward binds it.
pub open spec fn assign(scopes: Seq<Scope>, at: int, name: Seq<char>, value: Value) -> Option<
    Seq<Scope>,
> {
    match holder(scopes, at, name) {
        Some(h) => Some(define(scopes, h, name, value)),
        None => None,
    }
}

/// The scopes after `name` was given `value` in the scope `depth` links
/// outward from `at`; `None` where there is no such scope or it does not
/// bind `name`.
pub open spec fn assign_at(
    scopes: Seq<Scope>,
    at: int,
    depth: nat,
    name: Seq<char>,
    value: Value,
) -> Option<Seq<Scope>> {
    match ancestor(scopes, at, depth) {
        Some(a) => if scopes[a].lookup(name) is Some {
            Some(define(scopes, a, name, value))
        } else {
            None
        },
        None => None,
    }
}

/// The scopes with one more, empty scope that `inner` encloses.
pub open spec fn wrap(scopes: Seq<Scope>, inner: int) -> Seq<Scope> {
    scopes.push(Scope { bindings: Seq::empty(), enclosing: Some(inner) })
}

/// Whether the scope `after` is `before` some definitions later: it is
/// enclosed by the same scope, and holds every name that `before` holds.
pub open spec fn keeps(before: Scope, after: Scope) -> bool {
    &&& after.enclosing == before.enclosing
    &&& forall|name: Seq<char>|
        (#[trigger] before.lookup(name)) is Some ==> after.lookup(name) is Some
}

/// Binding a name moves no binding: every position holds the name that it
/// held.
pub proof fn lemma_bind_keeps_names(bindings: Seq<BindingView>, name: Seq<char>, value: Value)
    ensures
        bind(bindings, name, value).len() >= bindings.len(),
        forall|k: int|
            0 <= k < bindings.len() ==> (#[trigger] bind(bindings, name, value)[k]).name
                == bindings[k].name,
{
    lemma_position_names(bindings, name, 0);
}

/// Binding a name moves no other binding: a name that was bound at a
/// position is bound there still.
pub proof fn lemma_bind_keeps_positions(
    bindings: Seq<BindingView>,
    name: Seq<char>,
    value: Value,
    other: Seq<char>,
    from: int,
)
    requires
        0 <= from,
    ensures
        binding_position(bindings, other, from) matches Some(i) ==> binding_position(
            bind(bindings, name, value),
            other,
            from,
        ) == Some(i),
    decreases bindings.len() - from,
{
    let after = bind(bindings, name, value);
    lemma_bind_keeps_names(bindings, name, value);
    if from < bindings.len() {
        assert(after[from].name == bindings[from].name);
        if bindings[from].name != other {
            lemma_bind_keeps_positions(bindings, name, value, other, from + 1);
        }
    }
}

/// Where a name is found, it stands.
pub proof fn lemma_position_names(bindings: Seq<BindingView>, name: Seq<char>, from: int)
    requires
        0 <= from,
    ensures
        binding_position(bindings, name, from) matches Some(i) ==> from <= i < bindings.len()
            && bindings[i].name == name,
    decreases bindings.len() - from,
{
    if from < bindings.len() && bindings[from].name != name {
        lemma_position_names(bindings, name, from + 1);
    }
}

/// Defining a name in a scope keeps every name that the scope holds.
pub proof fn lemma_define_keeps(scope: Scope, name: Seq<char>, value: Value)
    ensures
        keeps(scope, scope.define(name, value)),
{
    assert forall|other: Seq<char>| (#[trigger] scope.lookup(other)) is Some implies scope.define(
        name,
        value,
    ).lookup(other) is Some by {
        lemma_bind_keeps_positions(scope.bindings, name, value, other, 0);
    }
}

/// Defining a name in one scope of a store keeps every scope of the store:
/// none is gone, each is enclosed as it was and holds the names it held.
pub proof fn lemma_define_keeps_scopes(scopes: Seq<Scope>, at: int, name: Seq<char>, value: Value)
    ensures
        define(scopes, at, name, value).len() == scopes.len(),
        forall|i: int|
            0 <= i < scopes.len() ==> keeps(#[trigger] scopes[i], define(scopes, at, name, value)[i]),
{
    if 0 <= at < scopes.len() {
        lemma_define_keeps(scopes[at], name, value);
    }
}

/// One name with its value.
#[derive(Debug)]
pub struct Binding {
    pub name: String,
    pub value: Literal,
}

impl View for Binding {
    type V = BindingView;

    open spec fn view(&self) -> BindingView {
        BindingView { name: self.name@, value: self.value@ }
    }
}

/// The bindings, each as plain values.
pub open spec fn bindings_view(bindings: Seq<Binding>) -> Seq<BindingView> {
    Seq::new(bindings.len(), |i: int| bindings[i]@)
}

/// One scope: its bindings and the index of the scope that encloses it.
#[derive(Debug)]
pub struct Environment {
    pub bindings: Vec<Binding>,
    pub enclosing: Option<usize>,
}

impl View for Environment {
    type V = Scope;

    open spec fn view(&self) -> Scope {
        Scope {
            bindings: bindings_view(self.bindings@),
            enclosing: match self.enclosing {
                Some(e) => Some(e as int),
                None => None,
            },
        }
    }
}

/// Where `name` is bound in `bindings`, if it is.
pub fn find_binding(bindings: &Vec<Binding>, name: &str) -> (found: Option<usize>)
    ensures
        match found {
            Some(i) => binding_position(bindings_view(bindings@), name@, 0) == Some(i as int) && i
                < bindings.len(),
            None => binding_position(bindings_view(bindings@), name@, 0) is None,
        },
{
    let mut i: usize = 0;
    let wanted = String::from_str(name);
    while i < bindings.len()
        invariant
            i <= bindings.len(),
            wanted@ == name@,
            binding_position(bindings_view(bindings@), name@, i as int) == binding_position(
                bindings_view(bindings@),
                name@,
                0,
            ),
        decreases bindings.len() - i,
    {
        if bindings[i].name == wanted {
            return Some(i);
        }
        i += 1;
    }
    None
}

/// Binds `name` to `value` in `bindings`, in place of an earlier binding of
/// it if there is one.
pub fn write_binding(bindings: &mut Vec<Binding>, name: &str, value: Literal)
    ensures
        bindings_view(final(bindings)@) == bind(bindings_view(old(bindings)@), name@, value@),
{
    let binding = Binding { name: String::from_str(name), value };
    match find_binding(bindings, name) {
        Some(i) => {
            bindings.set(i, binding);
            assert(bindings_view(bindings@) =~= bindings_view(old(bindings)@).update(
                i as int,
                binding@,
            ));
        },
        None => {
            bindings.push(binding);
            assert(bindings_view(bindings@) =~= bindings_view(old(bindings)@).push(binding@));
        },
    }
}

/// The value that `bindings` give `name`, if they bind it.
pub fn read_binding(bindings: &Vec<Binding>, name: &str) -> (found: Option<Literal>)
    ensures
        match found {
            Some(v) => bound(bindings_view(bindings@), name@) == Some(v@),
            None => bound(bindings_view(bindings@), name@) is None,
        },
{
    match find_binding(bindings, name) {
        Some(i) => Some(bindings[i].value.clone()),
        None => None,
    }
}

impl Environment {
    /// An empty scope enclosed by `enclosing`.
    pub fn new(enclosing: Option<usize>) -> (env: Environment)
        ensures
            env.enclosing == enclosing,
            env@.bindings == Seq::<BindingView>::empty(),
    {
        let env = Environment { bindings: Vec::new(), enclosing };
        assert(env@.bindings =~= Seq::empty());
        env
    }

    /// Binds `name` to `value` in this scope, in place of an earlier binding
    /// of it if there is one.
    pub fn define(&mut self, name: &str, value: Literal)
        ensures
            final(self)@ == old(self)@.define(name@, value@),
    {
        write_binding(&mut self.bindings, name, value);
    }

    /// The value bound to `name` in this scope, if it is bound here.
    pub fn lookup(&self, name: &str) -> (found: Option<Literal>)
        ensures
            match found {
                Some(v) => self@.lookup(name@) == Some(v@),
                None => self@.lookup(name@) is None,
            },
    {
        read_binding(&self.bindings, name)
    }

    /// Whether `name` is bound in this scope.
    pub fn binds(&self, name: &str) -> (b: bool)
        ensures
            b == (self@.lookup(name@) is Some),
    {
        find_binding(&self.bindings, name).is_some()
    }
}

/// The store of scopes.
#[derive(Debug)]
pub struct Environments {
    pub scopes: Vec<Environment>,
}

/// The scopes, each as plain values.
pub open spec fn scopes_view(scopes: Seq<Environment>) -> Seq<Scope> {
    Seq::new(scopes.len(), |i: int| scopes[i]@)
}

impl View for Environments {
    type V = Seq<Scope>;

    open spec fn view(&self) -> Seq<Scope> {
        scopes_view(self.scopes@)
    }
}

impl Environments {
    /// A store that holds one scope, the global one, which nothing encloses.
    pub fn new() -> (store: Environments)
        ensures
            store@ == seq![Scope { bindings: Seq::empty(), enclosing: None }],
    {
        let mut scopes: Vec<Environment> = Vec::new();
        scopes.push(Environment::new(None));
        let store = Environments { scopes };
        assert(store@ =~= seq![Scope { bindings: Seq::empty(), enclosing: None }]);
        store
    }

    /// Adds an empty scope enclosed by `inner` and gives its index.
    pub fn wrap(&mut self, inner: usize) -> (made: usize)
        ensures
            made == old(self)@.len(),
            final(self)@ == wrap(old(self)@, inner as int),
    {
        let index: usize = self.scopes.len();
        self.scopes.push(Environment::new(Some(inner)));
        assert(self@ =~= wrap(old(self)@, inner as int));
        index
    }

    /// Binds `name` to `value` in scope `at`; does nothing where there is no
    /// such scope.
    pub fn define(&mut self, at: usize, name: &str, value: Literal)
        ensures
            final(self)@ == define(old(self)@, at as int, name@, value@),
    {
        if at < self.scopes.len() {
            self.scopes[at].define(name, value);
            assert(self@ =~= define(old(self)@, at as int, name@, value@));
        }
    }

    /// The index of the scope `depth` links outward from `at`.
    pub fn ancestor(&self, at: usize, depth: usize) -> (found: Option<usize>)
        ensures
            match found {
                Some(a) => ancestor(self@, at as int, depth as nat) == Some(a as int) && a
                    < self.scopes.len(),
                None => ancestor(self@, at as int, depth as nat) is None,
            },
    {
        let mut current: usize = at;
        let mut left: usize = depth;
        loop
            invariant
                ancestor(self@, current as int, left as nat) == ancestor(
                    self@,
                    at as int,
                    depth as nat,
                ),
            decreases left,
        {
            if current >= self.scopes.len() {
                return None;
            }
            if left == 0 {
                return Some(current);
            }
            match self.scopes[current].enclosing {
                Some(outer) => {
                    current = outer;
                    left -= 1;
                },
                None => {
                    return None;
                },
            }
        }
    }

    /// The index of the innermost scope, from `at` outward, that binds `name`.
    pub fn holder(&self, at: usize, name: &str) -> (found: Option<usize>)
        ensures
            match found {
                Some(h) => holder(self@, at as int, name@) == Some(h as int) && h
                    < self.scopes.len(),
                None => holder(self@, at as int, name@) is None,
            },
    {
        let mut current: usize = at;
        loop
            invariant
                holder(self@, current as int, name@) == holder(self@, at as int, name@),
            decreases current,
        {
            if current >= self.scopes.len() {
                return None;
            }
            if self.scopes[current].binds(name) {
                return Some(current);
            }
            match self.scopes[current].enclosing {
                Some(outer) => {
                    if outer < current {
                        current = outer;
                    } else {
                        return None;
                    }
                },
                None => {
                    return None;
                },
            }
        }
    }

    /// The value of `name` as seen from scope `at`.
    pub fn get(&self, at: usize, name: &str) -> (found: Option<Literal>)
        ensures
            match found {
                Some(v) => get(self@, at as int, name@) == Some(v@),
                None => get(self@, at as int, name@) is None,
            },
    {
        match self.holder(at, name) {
            Some(h) => self.scopes[h].lookup(name),
            None => None,
        }
    }

    /// The value of `name` in the scope `depth` links outward from `at`.
    pub fn get_at(&self, at: usize, depth: usize, name: &str) -> (found: Option<Literal>)
        ensures
            match found {
                Some(v) => get_at(self@, at as int, depth as nat, name@) == Some(v@),
                None => get_at(self@, at as int, depth as nat, name@) is None,
            },
    {
        match self.ancestor(at, depth) {
            Some(a) => self.scopes[a].lookup(name),
            None => None,
        }
    }

    /// Gives `name`, as seen from `at`, the value `value`. Says whether a
    /// scope from `at` outward binds the name; where none does, nothing
    /// changes.
    pub fn assign(&mut self, at: usize, name: &str, value: Literal) -> (done: bool)
        ensures
            match assign(old(self)@, at as int, name@, value@) {
                Some(scopes) => done && final(self)@ == scopes,
                None => !done && final(self)@ == old(self)@,
            },
    {
        match self.holder(at, name) {
            Some(h) => {
                self.define(h, name, value);
                true
            },
            None => false,
        }
    }

    /// Gives `name` the value `value` in the scope `depth` links outward
    /// from `at`. Says whether there is such a scope and it binds the name;
    /// where not, nothing changes.
    pub fn assign_at(&mut self, at: usize, depth: usize, name: &str, value: Literal) -> (done: bool)
        ensures
            match assign_at(old(self)@, at as int, depth as nat, name@, value@) {
                Some(scopes) => done && final(self)@ == scopes,
                None => !done && final(self)@ == old(self)@,
            },
    {
        match self.ancestor(at, depth) {
            Some(a) => {
                if self.scopes[a].binds(name) {
                    self.define(a, name, value);
                    true
                } else {
                    false
                }
            },
            None => false,
        }
    }
}

} // verus!
