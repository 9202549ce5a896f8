//! Name-binding storage with lexical-scope semantics and closure capture.
//!
//! Scopes live in an arena (a vector) and refer to their enclosing scope by
//! index; a scope's enclosing index is always smaller than its own, so the
//! scopes form a tree and every chain walk terminates.  The arena outlives
//! every scope, which is how closures may keep a scope alive after the block
//! that created it has been left: they simply remember its index.
//!
//! Every operation is specified exactly, over `Seq`-level images of the
//! scopes (`ScopeV`); the interpreter's semantics is built from these
//! specification functions.

use vstd::prelude::*;

use crate::value::{ErrorV, RuntimeError, RuntimeValue, ValueV};

verus! {

/// The bindings of one scope, at the specification level: name/value pairs
/// in insertion order.
pub type BindingsV = Seq<(Seq<char>, ValueV)>;

/// The specification-level image of one scope.
#[verifier::ext_equal]
pub struct ScopeV {
    pub enclosing: Option<int>,
    pub values: BindingsV,
}

/// The specification-level image of the whole arena.
pub type EnvV = Seq<ScopeV>;

/// The value bound to `name` in one scope: the first matching pair.
pub open spec fn scope_get(vals: BindingsV, name: Seq<char>) -> Option<ValueV>
    decreases vals.len(),
{
    if vals.len() == 0 {
        None
    } else if vals[0].0 == name {
        Some(vals[0].1)
    } else {
        scope_get(vals.drop_first(), name)
    }
}

/// The bindings after `name` is bound to `v` in one scope: the first
/// matching pair is replaced, or the pair is appended when the name is new.
pub open spec fn scope_set(vals: BindingsV, name: Seq<char>, v: ValueV) -> BindingsV
    decreases vals.len(),
{
    if vals.len() == 0 {
        seq![(name, v)]
    } else if vals[0].0 == name {
        seq![(name, v)] + vals.drop_first()
    } else {
        seq![vals[0]] + scope_set(vals.drop_first(), name, v)
    }
}

/// Skipping pairs whose names differ does not change a lookup.
pub proof fn lemma_scope_get_skip(vals: BindingsV, name: Seq<char>, i: int)
    requires
        0 <= i <= vals.len(),
        forall|j: int| 0 <= j < i ==> (#[trigger] vals[j]).0 != name,
    ensures
        scope_get(vals, name) == scope_get(vals.skip(i), name),
    decreases i,
{
    if i > 0 {
        lemma_scope_get_skip(vals.drop_first(), name, i - 1);
        assert(vals.drop_first().skip(i - 1) =~= vals.skip(i));
    } else {
        assert(vals.skip(0) =~= vals);
    }
}

/// When the first match is at index `i`, binding is an in-place update.
pub proof fn lemma_scope_set_update(vals: BindingsV, name: Seq<char>, v: ValueV, i: int)
    requires
        0 <= i < vals.len(),
        forall|j: int| 0 <= j < i ==> (#[trigger] vals[j]).0 != name,
        vals[i].0 == name,
    ensures
        scope_set(vals, name, v) =~= vals.update(i, (name, v)),
    decreases i,
{
    if i == 0 {
        assert(scope_set(vals, name, v) =~= seq![(name, v)] + vals.drop_first());
        assert(seq![(name, v)] + vals.drop_first() =~= vals.update(0, (name, v)));
    } else {
        lemma_scope_set_update(vals.drop_first(), name, v, i - 1);
        assert(scope_set(vals, name, v) =~= seq![vals[0]] + vals.drop_first().update(
            i - 1,
            (name, v),
        ));
        assert(seq![vals[0]] + vals.drop_first().update(i - 1, (name, v)) =~= vals.update(
            i,
            (name, v),
        ));
    }
}

/// When no pair matches, binding appends.
pub proof fn lemma_scope_set_push(vals: BindingsV, name: Seq<char>, v: ValueV)
    requires
        forall|j: int| 0 <= j < vals.len() ==> (#[trigger] vals[j]).0 != name,
    ensures
        scope_set(vals, name, v) =~= vals.push((name, v)),
    decreases vals.len(),
{
    if vals.len() > 0 {
        lemma_scope_set_push(vals.drop_first(), name, v);
        assert(scope_set(vals, name, v) =~= seq![vals[0]] + vals.drop_first().push((name, v)));
        assert(seq![vals[0]] + vals.drop_first().push((name, v)) =~= vals.push((name, v)));
    }
}

/// The scope reached from `s` after exactly `d` enclosing hops.
pub open spec fn chain_at(env: EnvV, s: int, d: nat) -> Option<int>
    decreases d,
{
    if !(0 <= s < env.len()) {
        None
    } else if d == 0 {
        Some(s)
    } else {
        match env[s].enclosing {
            Some(p) => chain_at(env, p, (d - 1) as nat),
            None => None,
        }
    }
}

/// Dynamic lookup: search scope `s`, then walk the enclosing links outward.
/// A link that does not go to a smaller index is not followed; the arena
/// never creates such a link.
pub open spec fn chain_get(env: EnvV, s: int, name: Seq<char>) -> Option<ValueV>
    decreases s,
{
    if !(0 <= s < env.len()) {
        None
    } else {
        match scope_get(env[s].values, name) {
            Some(v) => Some(v),
            None => match env[s].enclosing {
                Some(p) => if 0 <= p < s {
                    chain_get(env, p, name)
                } else {
                    None
                },
                None => None,
            },
        }
    }
}

/// Reassignment may not change the interpreted type of a binding: the new
/// value must carry the same tag as the old one, except that a unit
/// binding accepts any type.
pub open spec fn tags_compatible(prev: ValueV, new: ValueV) -> bool {
    match (prev, new) {
        (ValueV::Str(_), ValueV::Str(_)) => true,
        (ValueV::Int(_), ValueV::Int(_)) => true,
        (ValueV::Bool(_), ValueV::Bool(_)) => true,
        (ValueV::Function { .. }, ValueV::Function { .. }) => true,
        (ValueV::Native(_), ValueV::Native(_)) => true,
        (ValueV::Class { .. }, ValueV::Class { .. }) => true,
        (ValueV::Instance(_), ValueV::Instance(_)) => true,
        (ValueV::Range(_, _), ValueV::Range(_, _)) => true,
        (ValueV::Unit, _) => true,
        _ => false,
    }
}

/// The arena after `name` is bound to `v` in scope `s` alone (declaration
/// semantics: outer bindings of the same name are shadowed, not touched).
pub open spec fn env_define(env: EnvV, s: int, name: Seq<char>, v: ValueV) -> EnvV {
    if 0 <= s < env.len() {
        env.update(
            s,
            ScopeV { enclosing: env[s].enclosing, values: scope_set(env[s].values, name, v) },
        )
    } else {
        env
    }
}

/// Dynamic assignment: find the nearest scope in the chain from `s` that
/// binds `name`; fail with an undefined-variable error when none does, with
/// a type error when the new value's tag differs from the binding's (and
/// leave the arena unchanged in either failure).
pub open spec fn chain_assign(env: EnvV, s: int, name: Seq<char>, v: ValueV) -> (EnvV, Result<
    (),
    ErrorV,
>)
    decreases s,
{
    if !(0 <= s < env.len()) {
        (env, Err(ErrorV::UndefinedVariable(name)))
    } else {
        match scope_get(env[s].values, name) {
            Some(prev) => if tags_compatible(prev, v) {
                (env_define(env, s, name, v), Ok(()))
            } else {
                (env, Err(ErrorV::TypeError))
            },
            None => match env[s].enclosing {
                Some(p) => if 0 <= p < s {
                    chain_assign(env, p, name, v)
                } else {
                    (env, Err(ErrorV::UndefinedVariable(name)))
                },
                None => (env, Err(ErrorV::UndefinedVariable(name))),
            },
        }
    }
}

/// Resolved lookup: jump `d` links out, then read `name` there.
pub open spec fn env_get_at(env: EnvV, s: int, d: nat, name: Seq<char>) -> Option<ValueV> {
    match chain_at(env, s, d) {
        Some(t) => scope_get(env[t].values, name),
        None => None,
    }
}

/// Resolved assignment: jump `d` links out and bind there, with no type
/// check (the resolver vouched for the target).
pub open spec fn env_assign_at(env: EnvV, s: int, d: nat, name: Seq<char>, v: ValueV) -> (
    EnvV,
    Result<(), ErrorV>,
) {
    match chain_at(env, s, d) {
        Some(t) => (env_define(env, t, name, v), Ok(())),
        None => (env, Err(ErrorV::UndefinedVariable(name))),
    }
}

/// The specification-level image of an association vector of bindings.
pub open spec fn bindings_view(v: Vec<(String, RuntimeValue)>) -> BindingsV {
    v@.map_values(|p: (String, RuntimeValue)| (p.0@, p.1@))
}

/// The value bound to `name` in `vals`, if any.
pub fn bindings_get(vals: &Vec<(String, RuntimeValue)>, name: &String) -> (r: Option<
    RuntimeValue,
>)
    ensures
        match r {
            Some(v) => scope_get(bindings_view(*vals), name@) == Some(v@),
            None => scope_get(bindings_view(*vals), name@) is None,
        },
{
    let n = vals.len();
    let mut i: usize = 0;
    while i < n
        invariant
            n == vals@.len(),
            0 <= i <= n,
            forall|j: int| 0 <= j < i ==> (#[trigger] bindings_view(*vals)[j]).0 != name@,
        decreases n - i,
    {
        if vals[i].0 == *name {
            proof {
                lemma_scope_get_skip(bindings_view(*vals), name@, i as int);
                assert(bindings_view(*vals).skip(i as int)[0] == bindings_view(*vals)[i as int]);
            }
            return Some(vals[i].1.clone());
        }
        i = i + 1;
    }
    proof {
        lemma_scope_get_skip(bindings_view(*vals), name@, n as int);
        assert(bindings_view(*vals).skip(n as int).len() == 0);
    }
    None
}

/// Bind `name` to `value` in `vals`: replace its pair, or append one.
pub fn bindings_set(vals: &mut Vec<(String, RuntimeValue)>, name: &String, value: RuntimeValue)
    ensures
        bindings_view(*final(vals)) == scope_set(bindings_view(*old(vals)), name@, value@),
{
    let n = vals.len();
    let mut i: usize = 0;
    while i < n
        invariant
            n == vals@.len(),
            0 <= i <= n,
            *vals == *old(vals),
            forall|j: int| 0 <= j < i ==> (#[trigger] bindings_view(*vals)[j]).0 != name@,
        decreases n - i,
    {
        if vals[i].0 == *name {
            proof {
                lemma_scope_set_update(bindings_view(*vals), name@, value@, i as int);
            }
            vals[i] = (name.clone(), value);
            proof {
                assert(bindings_view(*vals) =~= bindings_view(*old(vals)).update(
                    i as int,
                    (name@, value@),
                ));
            }
            return ;
        }
        i = i + 1;
    }
    proof {
        lemma_scope_set_push(bindings_view(*vals), name@, value@);
    }
    vals.push((name.clone(), value));
    proof {
        assert(bindings_view(*vals) =~= bindings_view(*old(vals)).push((name@, value@)));
    }
}

/// One scope: its enclosing link and its bindings, in insertion order with
/// at most one live pair per name.
#[derive(Debug)]
pub struct Scope {
    pub enclosing: Option<usize>,
    pub values: Vec<(String, RuntimeValue)>,
}

impl View for Scope {
    type V = ScopeV;

    open spec fn view(&self) -> ScopeV {
        ScopeV {
            enclosing: match self.enclosing {
                Some(p) => Some(p as int),
                None => None,
            },
            values: bindings_view(self.values),
        }
    }
}

impl Scope {
    /// The value bound to `name` here, if any.
    pub fn get(&self, name: &String) -> (r: Option<RuntimeValue>)
        ensures
            match r {
                Some(v) => scope_get(self@.values, name@) == Some(v@),
                None => scope_get(self@.values, name@) is None,
            },
    {
        bindings_get(&self.values, name)
    }

    /// Bind `name` to `value` here: replace its pair, or append one.
    pub fn set(&mut self, name: &String, value: RuntimeValue)
        ensures
            final(self)@.enclosing == old(self)@.enclosing,
            final(self)@.values == scope_set(old(self)@.values, name@, value@),
    {
        bindings_set(&mut self.values, name, value)
    }
}

/// The scope arena.
#[derive(Debug)]
pub struct Environment {
    pub scopes: Vec<Scope>,
}

impl View for Environment {
    type V = EnvV;

    open spec fn view(&self) -> EnvV {
        self.scopes@.map_values(|s: Scope| s@)
    }
}

impl Environment {
    /// The number of scopes in the arena.
    pub fn len(&self) -> (n: usize)
        ensures
            n == self@.len(),
    {
        self.scopes.len()
    }

    /// A fresh arena holding only the root (global) scope.
    pub fn new() -> (r: Self)
        ensures
            r@ =~= seq![ScopeV { enclosing: None, values: Seq::empty() }],
    {
        let mut scopes: Vec<Scope> = Vec::new();
        scopes.push(Scope { enclosing: None, values: Vec::new() });
        let r = Environment { scopes };
        proof {
            assert(r@ =~~= seq![ScopeV { enclosing: None, values: Seq::empty() }]);
        }
        r
    }

    /// A new, empty scope whose enclosing link is `parent`; returns its
    /// index.  Used on block entry, call entry and loop entry.
    pub fn create_child(&mut self, parent: usize) -> (idx: usize)
        ensures
            idx == old(self)@.len(),
            final(self)@ =~= old(self)@.push(
                ScopeV { enclosing: Some(parent as int), values: Seq::empty() },
            ),
    {
        let idx = self.scopes.len();
        self.scopes.push(Scope { enclosing: Some(parent), values: Vec::new() });
        proof {
            assert(self@ =~~= old(self)@.push(
                ScopeV { enclosing: Some(parent as int), values: Seq::empty() },
            ));
        }
        idx
    }

    /// Bind `name` in scope `s` alone.
    pub fn define(&mut self, s: usize, name: &String, value: RuntimeValue)
        ensures
            final(self)@ =~= env_define(old(self)@, s as int, name@, value@),
    {
        if s < self.scopes.len() {
            let sc = &mut self.scopes[s];
            sc.set(name, value);
            proof {
                assert(self@ =~= env_define(old(self)@, s as int, name@, value@));
            }
        }
    }

    /// Dynamic lookup from scope `s` outward.
    pub fn get(&self, s: usize, name: &String) -> (r: Option<RuntimeValue>)
        ensures
            match r {
                Some(v) => chain_get(self@, s as int, name@) == Some(v@),
                None => chain_get(self@, s as int, name@) is None,
            },
        decreases s,
    {
        if s >= self.scopes.len() {
            return None;
        }
        match self.scopes[s].get(name) {
            Some(v) => Some(v),
            None => {
                match self.scopes[s].enclosing {
                    Some(p) => {
                        if p < s {
                            self.get(p, name)
                        } else {
                            None
                        }
                    },
                    None => None,
                }
            },
        }
    }

    /// The index of the scope `d` enclosing hops out from `s`.
    pub fn ancestor(&self, s: usize, d: usize) -> (r: Option<usize>)
        ensures
            match r {
                Some(t) => chain_at(self@, s as int, d as nat) == Some(t as int) && t
                    < self@.len(),
                None => chain_at(self@, s as int, d as nat) is None,
            },
        decreases d,
    {
        if s >= self.scopes.len() {
            return None;
        }
        if d == 0 {
            return Some(s);
        }
        match self.scopes[s].enclosing {
            Some(p) => self.ancestor(p, d - 1),
            None => None,
        }
    }

    /// Resolved lookup: jump `d` links out, then read `name` there.
    pub fn get_at(&self, s: usize, d: usize, name: &String) -> (r: Option<RuntimeValue>)
        ensures
            match r {
                Some(v) => env_get_at(self@, s as int, d as nat, name@) == Some(v@),
                None => env_get_at(self@, s as int, d as nat, name@) is None,
            },
    {
        match self.ancestor(s, d) {
            Some(t) => self.scopes[t].get(name),
            None => None,
        }
    }

    /// Resolved assignment: jump `d` links out and bind there.
    pub fn assign_at(&mut self, s: usize, d: usize, name: &String, value: RuntimeValue) -> (r:
        Result<(), RuntimeError>)
        ensures
            ({
                let (env2, rs) = env_assign_at(old(self)@, s as int, d as nat, name@, value@);
                final(self)@ =~= env2 && match r {
                    Ok(_) => rs is Ok,
                    Err(e) => rs == Err::<(), ErrorV>(e@),
                }
            }),
    {
        match self.ancestor(s, d) {
            Some(t) => {
                self.define(t, name, value);
                Ok(())
            },
            None => Err(RuntimeError::UndefinedVariable(name.clone())),
        }
    }

    /// Dynamic assignment from scope `s` outward, with the type check.
    pub fn assign(&mut self, s: usize, name: &String, value: RuntimeValue) -> (r: Result<
        (),
        RuntimeError,
    >)
        ensures
            ({
                let (env2, rs) = chain_assign(old(self)@, s as int, name@, value@);
                final(self)@ =~= env2 && match r {
                    Ok(_) => rs is Ok,
                    Err(e) => rs == Err::<(), ErrorV>(e@),
                }
            }),
        decreases s,
    {
        if s >= self.scopes.len() {
            return Err(RuntimeError::UndefinedVariable(name.clone()));
        }
        match self.scopes[s].get(name) {
            Some(prev) => {
                let compatible = match (&prev, &value) {
                    (RuntimeValue::Str(_), RuntimeValue::Str(_)) => true,
                    (RuntimeValue::Integer(_), RuntimeValue::Integer(_)) => true,
                    (RuntimeValue::Bool(_), RuntimeValue::Bool(_)) => true,
                    (RuntimeValue::Function { .. }, RuntimeValue::Function { .. }) => true,
                    (RuntimeValue::Native(_), RuntimeValue::Native(_)) => true,
                    (RuntimeValue::Class { .. }, RuntimeValue::Class { .. }) => true,
                    (RuntimeValue::Instance(_), RuntimeValue::Instance(_)) => true,
                    (RuntimeValue::Range(_, _), RuntimeValue::Range(_, _)) => true,
                    (RuntimeValue::Unit, _) => true,
                    _ => false,
                };
                if compatible {
                    self.define(s, name, value);
                    Ok(())
                } else {
                    Err(RuntimeError::TypeError)
                }
            },
            None => {
                match self.scopes[s].enclosing {
                    Some(p) => {
                        if p < s {
                            self.assign(p, name, value)
                        } else {
                            Err(RuntimeError::UndefinedVariable(name.clone()))
                        }
                    },
                    None => Err(RuntimeError::UndefinedVariable(name.clone())),
                }
            },
        }
    }
}

} // verus!
