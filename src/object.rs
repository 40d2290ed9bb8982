//! Runtime values and the scopes that bind names to them.
use vstd::prelude::*;
use crate::ast::{expression_text, Expression, FunctionLiteral};

verus! {

/// A runtime value. A function value refers to its literal in the program
/// being run and to the scope it was made in.
#[derive(Debug)]
pub enum Object<'a> {
    Integer(i64),
    /// The bits of an IEEE 754 double.
    Float(u64),
    Boolean(bool),
    String(String),
    Null,
    /// The value of a `return`, on its way out of the blocks around it.
    ReturnValue(Box<Object<'a>>),
    Function { literal: &'a FunctionLiteral, env: usize },
}

/// The mathematical value of an `Object`.
pub enum Value {
    Integer(i64),
    Float(u64),
    Boolean(bool),
    Str(Seq<char>),
    Null,
    Return(Box<Value>),
    Function(FunctionLiteral, nat),
}

impl<'a> View for Object<'a> {
    type V = Value;

    open spec fn view(&self) -> Value
        decreases self,
    {
        match self {
            Object::Integer(v) => Value::Integer(*v),
            Object::Float(v) => Value::Float(*v),
            Object::Boolean(v) => Value::Boolean(*v),
            Object::String(s) => Value::Str(s@),
            Object::Null => Value::Null,
            Object::ReturnValue(inner) => Value::Return(Box::new((**inner).view())),
            Object::Function { literal, env } => Value::Function(**literal, *env as nat),
        }
    }
}

/// The text of a function literal.
pub open spec fn function_text(f: FunctionLiteral) -> Seq<char> {
    expression_text(Expression::Function(f))
}

/// Structural equality: the same kind and the same contents. Functions are
/// equal when their literals print alike and they close over the same scope.
pub open spec fn values_equal(a: Value, b: Value) -> bool
    decreases a,
{
    match (a, b) {
        (Value::Integer(x), Value::Integer(y)) => x == y,
        (Value::Float(x), Value::Float(y)) => x == y,
        (Value::Boolean(x), Value::Boolean(y)) => x == y,
        (Value::Str(x), Value::Str(y)) => x == y,
        (Value::Null, Value::Null) => true,
        (Value::Return(x), Value::Return(y)) => values_equal(*x, *y),
        (Value::Function(f, e), Value::Function(g, d)) => e == d && function_text(f)
            == function_text(g),
        _ => false,
    }
}

pub const NULL: Object<'static> = Object::Null;

impl<'a> Object<'a> {
    /// A copy of the value.
    pub fn duplicate(&self) -> (r: Object<'a>)
        ensures
            r@ == self@,
        decreases self,
    {
        match self {
            Object::Integer(v) => Object::Integer(*v),
            Object::Float(v) => Object::Float(*v),
            Object::Boolean(v) => Object::Boolean(*v),
            Object::String(s) => Object::String(s.clone()),
            Object::Null => Object::Null,
            Object::ReturnValue(inner) => Object::ReturnValue(Box::new(inner.duplicate())),
            Object::Function { literal, env } => Object::Function { literal: *literal, env: *env },
        }
    }

    /// Structural equality of two values.
    pub fn equals(&self, other: &Object<'a>) -> (r: bool)
        ensures
            r == values_equal(self@, other@),
        decreases self,
    {
        match (self, other) {
            (Object::Integer(x), Object::Integer(y)) => *x == *y,
            (Object::Float(x), Object::Float(y)) => *x == *y,
            (Object::Boolean(x), Object::Boolean(y)) => *x == *y,
            (Object::String(x), Object::String(y)) => *x == *y,
            (Object::Null, Object::Null) => true,
            (Object::ReturnValue(x), Object::ReturnValue(y)) => x.equals(y),
            (Object::Function { literal: f, env: e }, Object::Function { literal: g, env: d }) => {
                if *e != *d {
                    false
                } else {
                    let ft = function_string(f);
                    let gt = function_string(g);
                    ft == gt
                }
            },
            _ => false,
        }
    }
}

impl<'a> PartialEq for Object<'a> {
    fn eq(&self, other: &Object<'a>) -> (r: bool) {
        self.equals(other)
    }
}

impl<'a> vstd::std_specs::cmp::PartialEqSpecImpl for Object<'a> {
    open spec fn obeys_eq_spec() -> bool {
        true
    }

    open spec fn eq_spec(&self, other: &Object<'a>) -> bool {
        values_equal(self@, other@)
    }
}

fn function_string(f: &FunctionLiteral) -> (r: String)
    ensures
        r@ == function_text(*f),
{
    crate::ast::write_function_text(f)
}

/// The mathematical state of an `Environment`: its bindings as (scope,
/// name, value), the parent of each scope, and the current scope.
pub struct EnvState {
    pub bindings: Seq<(nat, Seq<char>, Value)>,
    pub parents: Seq<Option<nat>>,
    pub current: nat,
}

/// `st` with `name` bound to `v` in its current scope.
pub open spec fn bind_in(st: EnvState, name: Seq<char>, v: Value) -> EnvState {
    EnvState { bindings: bind(st.bindings, st.current, name, v), ..st }
}

/// The value of `name` seen from the current scope of `st`.
pub open spec fn lookup_in(st: EnvState, name: Seq<char>) -> Option<Value> {
    resolve(st.bindings, st.parents, st.current, name)
}

/// One name bound in one scope.
#[derive(Debug)]
pub struct Binding<'a> {
    pub scope: usize,
    pub name: String,
    pub value: Object<'a>,
}

/// The scopes of a run: each scope has the scope it was opened in as its
/// parent, and every binding names the scope it belongs to. Scope 0 is the
/// outermost; `current` is where assignments go and lookups start.
#[derive(Debug)]
pub struct Environment<'a> {
    bindings: Vec<Binding<'a>>,
    parents: Vec<Option<usize>>,
    current: usize,
}

/// The first binding from `from` on of `name` in scope `s`.
pub open spec fn find_binding(bs: Seq<(nat, Seq<char>, Value)>, s: nat, name: Seq<char>, from: int) -> Option<
    int,
>
    decreases bs.len() - from,
{
    if from < 0 || from >= bs.len() {
        None
    } else if bs[from].0 == s && bs[from].1 == name {
        Some(from)
    } else {
        find_binding(bs, s, name, from + 1)
    }
}

proof fn lemma_find_binding(bs: Seq<(nat, Seq<char>, Value)>, s: nat, name: Seq<char>, from: int)
    requires
        0 <= from,
    ensures
        find_binding(bs, s, name, from) matches Some(j) ==> from <= j < bs.len() && bs[j].0 == s
            && bs[j].1 == name,
    decreases bs.len() - from,
{
    if from < bs.len() && !(bs[from].0 == s && bs[from].1 == name) {
        lemma_find_binding(bs, s, name, from + 1);
    }
}

/// The bindings after `name` is bound to `v` in scope `s`: its first binding
/// there is replaced, or a new one is added at the end.
pub open spec fn bind(bs: Seq<(nat, Seq<char>, Value)>, s: nat, name: Seq<char>, v: Value) -> Seq<
    (nat, Seq<char>, Value),
> {
    match find_binding(bs, s, name, 0) {
        Some(j) => bs.update(j, (s, name, v)),
        None => bs.push((s, name, v)),
    }
}

proof fn lemma_find_after_update(
    bs: Seq<(nat, Seq<char>, Value)>,
    s: nat,
    name: Seq<char>,
    v: Value,
    j: int,
    from: int,
)
    requires
        0 <= from <= j < bs.len(),
        find_binding(bs, s, name, from) == Some(j),
    ensures
        find_binding(bs.update(j, (s, name, v)), s, name, from) == Some(j),
    decreases j - from,
{
    if from < j {
        lemma_find_after_update(bs, s, name, v, j, from + 1);
    }
}

proof fn lemma_find_after_push(
    bs: Seq<(nat, Seq<char>, Value)>,
    s: nat,
    name: Seq<char>,
    v: Value,
    from: int,
)
    requires
        0 <= from <= bs.len(),
        find_binding(bs, s, name, from) is None,
    ensures
        find_binding(bs.push((s, name, v)), s, name, from) == Some(bs.len() as int),
    decreases bs.len() - from,
{
    if from < bs.len() {
        lemma_find_after_push(bs, s, name, v, from + 1);
    }
}

/// A name just bound in a scope has, seen from that scope, the value it was
/// bound to, whatever the scopes around it bind.
pub proof fn lemma_bind_then_resolve(
    bs: Seq<(nat, Seq<char>, Value)>,
    parents: Seq<Option<nat>>,
    s: nat,
    name: Seq<char>,
    v: Value,
)
    ensures
        resolve(bind(bs, s, name, v), parents, s, name) == Some(v),
{
    lemma_find_binding(bs, s, name, 0);
    match find_binding(bs, s, name, 0) {
        Some(j) => {
            lemma_find_after_update(bs, s, name, v, j, 0);
        },
        None => {
            lemma_find_after_push(bs, s, name, v, 0);
        },
    }
}

/// The value of `name` seen from scope `s`: its binding in `s`, else its
/// value seen from the parent of `s`.
pub open spec fn resolve(
    bs: Seq<(nat, Seq<char>, Value)>,
    parents: Seq<Option<nat>>,
    s: nat,
    name: Seq<char>,
) -> Option<Value>
    decreases s,
{
    match find_binding(bs, s, name, 0) {
        Some(j) => Some(bs[j].2),
        None => if s < parents.len() && parents[s as int] is Some && parents[s as int]->0 < s {
            resolve(bs, parents, parents[s as int]->0, name)
        } else {
            None
        },
    }
}

impl<'a> Environment<'a> {
    pub closed spec fn binding_views(&self) -> Seq<(nat, Seq<char>, Value)> {
        self.bindings@.map_values(|b: Binding<'a>| (b.scope as nat, b.name@, b.value@))
    }

    pub closed spec fn parent_views(&self) -> Seq<Option<nat>> {
        self.parents@.map_values(
            |p: Option<usize>|
                match p {
                    Some(i) => Some(i as nat),
                    None => None,
                },
        )
    }

    pub closed spec fn current_scope(&self) -> nat {
        self.current as nat
    }

    pub open spec fn state(&self) -> EnvState {
        EnvState {
            bindings: self.binding_views(),
            parents: self.parent_views(),
            current: self.current_scope(),
        }
    }

    /// Every parent is opened before its child, and the current scope exists.
    pub open spec fn wf(&self) -> bool {
        &&& self.current_scope() < self.parent_views().len()
        &&& forall|i: int|
            0 <= i < self.parent_views().len() && #[trigger] self.parent_views()[i] is Some
                ==> self.parent_views()[i]->0 < i
    }

    /// The value of `name` seen from the current scope.
    pub open spec fn lookup(&self, name: Seq<char>) -> Option<Value> {
        resolve(self.binding_views(), self.parent_views(), self.current_scope(), name)
    }

    /// An environment with one empty scope.
    pub fn new() -> (r: Environment<'a>)
        ensures
            r.wf(),
            r.current_scope() == 0,
            r.parent_views() == seq![None::<nat>],
            r.binding_views().len() == 0,
    {
        let mut parents: Vec<Option<usize>> = Vec::new();
        parents.push(None);
        let r = Environment { bindings: Vec::new(), parents, current: 0 };
        assert(r.parent_views() =~= seq![None::<nat>]);
        assert(r.binding_views() =~= Seq::empty());
        r
    }

    /// Opens a new empty scope whose parent is `outer`, and returns it; the
    /// current scope stays.
    pub fn new_enclosed(&mut self, outer: usize) -> (r: usize)
        requires
            old(self).wf(),
            outer < old(self).parent_views().len(),
            old(self).parent_views().len() < usize::MAX,
        ensures
            final(self).wf(),
            r == old(self).parent_views().len(),
            final(self).parent_views() == old(self).parent_views().push(Some(outer as nat)),
            final(self).binding_views() == old(self).binding_views(),
            final(self).current_scope() == old(self).current_scope(),
    {
        let r = self.parents.len();
        self.parents.push(Some(outer));
        assert(self.parent_views() =~= old(self).parent_views().push(Some(outer as nat)));
        r
    }

    /// The number of scopes opened so far.
    pub fn scope_count(&self) -> (r: usize)
        ensures
            r == self.parent_views().len(),
    {
        self.parents.len()
    }

    pub fn current(&self) -> (r: usize)
        ensures
            r == self.current_scope(),
    {
        self.current
    }

    /// Makes `scope` the current scope.
    pub fn enter(&mut self, scope: usize)
        requires
            old(self).wf(),
            scope < old(self).parent_views().len(),
        ensures
            final(self).wf(),
            final(self).current_scope() == scope,
            final(self).parent_views() == old(self).parent_views(),
            final(self).binding_views() == old(self).binding_views(),
    {
        self.current = scope;
    }

    /// Binds `identifier` to `value` in the current scope, replacing its
    /// binding there if it had one; outer scopes are untouched.
    pub fn set(&mut self, identifier: String, value: Object<'a>)
        requires
            old(self).wf(),
        ensures
            final(self).wf(),
            final(self).parent_views() == old(self).parent_views(),
            final(self).current_scope() == old(self).current_scope(),
            final(self).binding_views() == bind(
                old(self).binding_views(),
                old(self).current_scope(),
                identifier@,
                value@,
            ),
            final(self).lookup(identifier@) == Some(value@),
    {
        let ghost bs = self.binding_views();
        proof {
            lemma_find_binding(bs, self.current_scope(), identifier@, 0);
        }
        match self.find(self.current, &identifier) {
            Some(j) => {
                let ghost entry = (self.current_scope(), identifier@, value@);
                self.bindings.set(j, Binding { scope: self.current, name: identifier, value });
                assert(self.binding_views() =~= bs.update(j as int, entry));
                proof {
                    lemma_bind_then_resolve(bs, self.parent_views(), self.current_scope(), entry.1, entry.2);
                }
            },
            None => {
                let ghost entry = (self.current_scope(), identifier@, value@);
                self.bindings.push(Binding { scope: self.current, name: identifier, value });
                assert(self.binding_views() =~= bs.push(entry));
                proof {
                    lemma_bind_then_resolve(bs, self.parent_views(), self.current_scope(), entry.1, entry.2);
                }
            },
        }
    }

    /// The index of the binding of `name` in scope `s`.
    fn find(&self, s: usize, name: &String) -> (r: Option<usize>)
        ensures
            r is Some ==> find_binding(self.binding_views(), s as nat, name@, 0) == Some(
                r->0 as int,
            ),
            r is None ==> find_binding(self.binding_views(), s as nat, name@, 0) is None,
    {
        let ghost bs = self.binding_views();
        let mut k: usize = 0;
        while k < self.bindings.len()
            invariant
                bs == self.binding_views(),
                bs.len() == self.bindings@.len(),
                k <= bs.len(),
                find_binding(bs, s as nat, name@, 0) == find_binding(bs, s as nat, name@, k as int),
            decreases bs.len() - k,
        {
            let b = &self.bindings[k];
            assert(bs[k as int] == (b.scope as nat, b.name@, b.value@));
            if b.scope == s && b.name == *name {
                return Some(k);
            }
            k = k + 1;
        }
        None
    }

    /// The value of `identifier` seen from the current scope.
    pub fn get(&self, identifier: &String) -> (r: Option<&Object<'a>>)
        requires
            self.wf(),
        ensures
            match self.lookup(identifier@) {
                Some(v) => r is Some && r->0@ == v,
                None => r is None,
            },
    {
        let mut s = self.current;
        loop
            invariant
                self.wf(),
                s < self.parent_views().len(),
                self.lookup(identifier@) == resolve(
                    self.binding_views(),
                    self.parent_views(),
                    s as nat,
                    identifier@,
                ),
            decreases s,
        {
            proof {
                lemma_find_binding(self.binding_views(), s as nat, identifier@, 0);
            }
            match self.find(s, identifier) {
                Some(j) => {
                    assert(self.binding_views()[j as int].2 == self.bindings@[j as int].value@);
                    assert(find_binding(self.binding_views(), s as nat, identifier@, 0) == Some(
                        j as int,
                    ));
                    assert(resolve(self.binding_views(), self.parent_views(), s as nat, identifier@)
                        == Some(self.bindings@[j as int].value@));
                    return Some(&self.bindings[j].value);
                },
                None => {
                    assert(self.parent_views()[s as int] == match self.parents@[s as int] {
                        Some(i) => Some(i as nat),
                        None => None::<nat>,
                    });
                    match self.parents[s] {
                        Some(p) => {
                            s = p;
                        },
                        None => {
                            return None;
                        },
                    }
                },
            }
        }
    }
}

} // verus!
