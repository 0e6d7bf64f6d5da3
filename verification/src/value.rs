//! Runtime values and environments, and their models.

use std::rc::Rc;

use vstd::prelude::*;

use crate::ast::{copy_expr, copy_strings, sp_v, spe, strs_v, Expr, SSp, SpExpr, Spanned};
use crate::text::str_eq;

verus! {

/// A value of the language. A float is held as the bits of an IEEE-754
/// double. A record holds its fields in a list, each name at most once
/// (`record_names_distinct`): a map keyed by strings would give nothing that
/// Verus can prove of a lookup, while the list is a map whose reads and
/// writes are proved (`field_after_set`); the text of a record sorts its
/// fields by name, so the order of the list is never seen.
pub enum Value {
    Int(i64),
    Float(u64),
    Bool(bool),
    Str(String),
    List(Vec<Value>),
    Tuple(Vec<Value>),
    Record(Vec<(String, Value)>),
    /// Tagged constructor: name + payload values
    Constructor(String, Vec<Value>),
    /// Closure: captured environment, parameter names, body expression
    Closure { env: Env, params: Vec<String>, body: Box<Spanned<Expr>> },
    /// Unit / empty value (returned by print, etc.)
    Unit,
}

/// A persistent environment mapping names to values: a shared list of
/// bindings, the latest first. Extending it shares the old bindings, so
/// copying an environment is a pointer copy and extending it costs one
/// binding. A map keyed by strings would give nothing that Verus can prove of
/// a lookup; the list is a map whose lookups are proved (`lookup_after_bind`),
/// a name standing for its latest binding.
pub struct Env {
    head: Option<Rc<Binding>>,
}

pub struct Binding {
    name: String,
    value: Value,
    next: Env,
}

// ══ The model ════════════════════════════════════════════════════════════════

/// The model of an environment: bindings in the order they were made; a name
/// stands for its last binding.
pub type SEnv = Seq<(Seq<char>, SValue)>;

pub enum SValue {
    Int(i64),
    Float(u64),
    Bool(bool),
    Str(Seq<char>),
    List(Seq<SValue>),
    Tuple(Seq<SValue>),
    Record(Seq<(Seq<char>, SValue)>),
    Constructor(Seq<char>, Seq<SValue>),
    Closure { env: SEnv, params: Seq<Seq<char>>, body: SSp },
    Unit,
}

pub open spec fn val_v(v: Value) -> SValue
    decreases v,
{
    match v {
        Value::Int(n) => SValue::Int(n),
        Value::Float(b) => SValue::Float(b),
        Value::Bool(b) => SValue::Bool(b),
        Value::Str(s) => SValue::Str(s@),
        Value::List(items) => SValue::List(vals_v(items@)),
        Value::Tuple(items) => SValue::Tuple(vals_v(items@)),
        Value::Record(fields) => SValue::Record(rec_v(fields@)),
        Value::Constructor(name, args) => SValue::Constructor(name@, vals_v(args@)),
        Value::Closure { env, params, body } => SValue::Closure {
            env: env_v(env),
            params: strs_v(params@),
            body: sp_v(body),
        },
        Value::Unit => SValue::Unit,
    }
}

pub open spec fn vals_v(s: Seq<Value>) -> Seq<SValue>
    decreases s,
{
    if s.len() == 0 {
        Seq::empty()
    } else {
        vals_v(s.drop_last()).push(val_v(s.last()))
    }
}

pub open spec fn rec_v(s: Seq<(String, Value)>) -> Seq<(Seq<char>, SValue)>
    decreases s,
{
    if s.len() == 0 {
        Seq::empty()
    } else {
        rec_v(s.drop_last()).push((s.last().0@, val_v(s.last().1)))
    }
}

pub closed spec fn env_v(e: Env) -> SEnv
    decreases e,
{
    match e.head {
        None => Seq::empty(),
        Some(b) => env_v(b.next).push((b.name@, val_v(b.value))),
    }
}

pub broadcast proof fn lemma_vals_v(s: Seq<Value>)
    ensures
        #[trigger] vals_v(s).len() == s.len(),
        forall|i: int| 0 <= i < s.len() ==> vals_v(s)[i] == val_v(s[i]),
    decreases s.len(),
{
    if s.len() > 0 {
        lemma_vals_v(s.drop_last());
    }
}

pub broadcast proof fn lemma_rec_v(s: Seq<(String, Value)>)
    ensures
        #[trigger] rec_v(s).len() == s.len(),
        forall|i: int| 0 <= i < s.len() ==> rec_v(s)[i] == (s[i].0@, val_v(s[i].1)),
    decreases s.len(),
{
    if s.len() > 0 {
        lemma_rec_v(s.drop_last());
    }
}

pub broadcast group group_value_views {
    lemma_vals_v,
    lemma_rec_v,
}

impl View for Value {
    type V = SValue;

    open spec fn view(&self) -> SValue {
        val_v(*self)
    }
}

impl View for Env {
    type V = SEnv;

    open spec fn view(&self) -> SEnv {
        env_v(*self)
    }
}

/// The value that `env` binds `name` to: its last binding of `name`.
pub open spec fn lookup(env: SEnv, name: Seq<char>) -> Option<SValue>
    decreases env.len(),
{
    if env.len() == 0 {
        None
    } else if env.last().0 == name {
        Some(env.last().1)
    } else {
        lookup(env.drop_last(), name)
    }
}

// ══ Sharing and copying ══════════════════════════════════════════════════════

/// Another pointer to the same binding list (std's `Rc::clone`, which gives a
/// new `Rc` to the same allocation; the value behind it is the same).
#[verifier::external_body]
fn share(b: &Rc<Binding>) -> (r: Rc<Binding>)
    ensures
        r == *b,
{
    b.clone()
}

impl Env {
    /// An empty environment.
    pub fn new() -> (r: Self)
        ensures
            r@ == Seq::<(Seq<char>, SValue)>::empty(),
    {
        Env { head: None }
    }

    /// The same environment, sharing its bindings.
    pub fn share(&self) -> (r: Self)
        ensures
            r@ == self@,
    {
        match &self.head {
            None => Env { head: None },
            Some(b) => Env { head: Some(share(b)) },
        }
    }

    /// Looks up a name: its latest binding.
    pub fn get(&self, name: &str) -> (r: Option<&Value>)
        ensures
            match r {
                Some(v) => lookup(self@, name@) == Some(v@),
                None => lookup(self@, name@) is None,
            },
        decreases *self,
    {
        match &self.head {
            None => None,
            Some(b) => {
                assert(self@ == b.next@.push((b.name@, b.value@)));
                assert(self@.drop_last() =~= b.next@);
                if str_eq(b.name.as_str(), name) {
                    Some(&b.value)
                } else {
                    b.next.get(name)
                }
            },
        }
    }

    /// Extends with a new binding, returning a new Env.
    pub fn extend(&self, name: String, value: Value) -> (r: Self)
        ensures
            r@ == self@.push((name@, value@)),
    {
        Env { head: Some(Rc::new(Binding { name, value, next: self.share() })) }
    }

    /// Extends with bindings made in order: a later binding of a name hides
    /// an earlier one.
    pub fn extend_many(&self, bindings: Vec<(String, Value)>) -> (r: Self)
        ensures
            r@ == self@ + rec_v(bindings@),
    {
        broadcast use group_value_views;

        let mut env = self.share();
        let mut bindings = bindings;
        let ghost all = bindings@;
        let mut done: Ghost<Seq<(String, Value)>> = Ghost(Seq::empty());
        while bindings.len() > 0
            invariant
                all == done@ + bindings@,
                env@ == self@ + rec_v(done@),
            decreases bindings@.len(),
        {
            let ghost before = bindings@;
            let (k, v) = bindings.remove(0);
            proof {
                let kv = before[0];
                assert(kv == (k, v));
                lemma_rec_v(done@.push(kv));
                lemma_rec_v(done@);
                assert(rec_v(done@.push(kv)) =~= rec_v(done@).push((k@, v@)));
                done@ = done@.push(kv);
                assert(all =~= done@ + bindings@);
            }
            env = env.extend(k, v);
            assert(env@ =~= self@ + rec_v(done@));
        }
        assert(done@ =~= all);
        env
    }
}

impl Default for Env {
    /// An empty environment.
    fn default() -> (r: Self)
        ensures
            r@ == Seq::<(Seq<char>, SValue)>::empty(),
    {
        Env::new()
    }
}

/// A copy of a value, equal to it in the model; closures share their
/// environment.
pub fn copy_value(v: &Value) -> (r: Value)
    ensures
        r@ == v@,
    decreases v,
{
    match v {
        Value::Int(n) => Value::Int(*n),
        Value::Float(b) => Value::Float(*b),
        Value::Bool(b) => Value::Bool(*b),
        Value::Str(s) => Value::Str(s.clone()),
        Value::List(items) => Value::List(copy_values(items)),
        Value::Tuple(items) => Value::Tuple(copy_values(items)),
        Value::Record(fields) => Value::Record(copy_fields(fields)),
        Value::Constructor(name, args) => Value::Constructor(name.clone(), copy_values(args)),
        Value::Closure { env, params, body } => {
            let b = copy_expr(body);
            let r = Value::Closure { env: env.share(), params: copy_strings(params), body: Box::new(b) };
            r
        },
        Value::Unit => Value::Unit,
    }
}

/// Copies of the values, equal to them in the model.
pub fn copy_values(items: &Vec<Value>) -> (r: Vec<Value>)
    ensures
        vals_v(r@) == vals_v(items@),
    decreases items,
{
    broadcast use group_value_views;

    let mut out: Vec<Value> = Vec::new();
    let mut i: usize = 0;
    while i < items.len()
        invariant
            i <= items@.len(),
            out@.len() == i,
            forall|j: int| 0 <= j < i ==> val_v(out@[j]) == val_v(items@[j]),
        decreases items@.len() - i,
    {
        let c = copy_value(&items[i]);
        out.push(c);
        i = i + 1;
    }
    assert(vals_v(out@) =~= vals_v(items@));
    out
}

/// Copies of the fields, equal to them in the model.
pub fn copy_fields(fields: &Vec<(String, Value)>) -> (r: Vec<(String, Value)>)
    ensures
        rec_v(r@) == rec_v(fields@),
    decreases fields,
{
    broadcast use group_value_views;

    let mut out: Vec<(String, Value)> = Vec::new();
    let mut i: usize = 0;
    while i < fields.len()
        invariant
            i <= fields@.len(),
            out@.len() == i,
            forall|j: int|
                0 <= j < i ==> out@[j].0@ == fields@[j].0@ && val_v(out@[j].1) == val_v(
                    fields@[j].1,
                ),
        decreases fields@.len() - i,
    {
        let c = copy_value(&fields[i].1);
        out.push((fields[i].0.clone(), c));
        i = i + 1;
    }
    assert(rec_v(out@) =~= rec_v(fields@));
    out
}

// ══ Laws ═════════════════════════════════════════════════════════════════════

/// Binding a name makes it give the value just bound; every other name gives
/// what it gave before.
pub proof fn lookup_after_bind(env: SEnv, name: Seq<char>, v: SValue, other: Seq<char>)
    ensures
        lookup(env.push((name, v)), name) == Some(v),
        other != name ==> lookup(env.push((name, v)), other) == lookup(env, other),
{
    assert(env.push((name, v)).drop_last() =~= env);
}

/// Binding several names at once: a name bound among them gives its last
/// binding there; any other name gives what it gave before.
pub proof fn lookup_after_bind_many(env: SEnv, bs: SEnv, name: Seq<char>)
    ensures
        lookup(env + bs, name) == match lookup(bs, name) {
            Some(v) => Some(v),
            None => lookup(env, name),
        },
    decreases bs.len(),
{
    if bs.len() == 0 {
        assert(env + bs =~= env);
    } else {
        assert((env + bs).drop_last() =~= env + bs.drop_last());
        assert((env + bs).last() == bs.last());
        lookup_after_bind_many(env, bs.drop_last(), name);
    }
}

/// The environment after extending with each binding in turn, the first
/// first: the model of `env.extend(k0, v0).extend(k1, v1)...`.
pub open spec fn extend_each(env: SEnv, bs: SEnv) -> SEnv
    decreases bs.len(),
{
    if bs.len() == 0 {
        env
    } else {
        extend_each(env.push(bs[0]), bs.drop_first())
    }
}

/// Extending with several bindings at once (`extend_many`) is extending with
/// each in turn (`extend`), in order.
pub proof fn extend_many_is_each_extend(env: SEnv, bs: SEnv)
    ensures
        env + bs == extend_each(env, bs),
    decreases bs.len(),
{
    if bs.len() == 0 {
        assert(env + bs =~= env);
    } else {
        extend_many_is_each_extend(env.push(bs[0]), bs.drop_first());
        assert(env + bs =~= env.push(bs[0]) + bs.drop_first());
    }
}

} // verus!
