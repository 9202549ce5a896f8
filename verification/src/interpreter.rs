//! The tree-walking evaluator.  It owns the scope arena, the instance
//! table, the resolution map produced by the resolver, and the output
//! collected from `print`; every evaluation step is proved to be exactly
//! what the evaluation semantics in `semantics` says.
//!
//! The evaluator is given a recursion budget (fuel) by its caller; programs
//! that exceed it stop with a `RecursionLimit` error, the analogue of
//! exhausting the host call stack.

use vstd::prelude::*;
use vstd::string::StringExecFns;

use crate::ast::{Expr, Node, Program, Stmt};
use crate::builtins::{assert_builtin, define_globals, now_millis};
use crate::environment::{bindings_get, bindings_set, bindings_view, Environment, ScopeV};
use crate::resolver::Resolver;
use crate::semantics::{
    abs_int, binary_value, call_value_spec, class_call_spec, closure_call_spec, eval_args_spec,
    eval_expr_spec, exec_stmt_spec, exec_stmts_spec, find_method_from, for_loop_spec,
    instance_get_spec, locals_get_from, lookup_variable, truthy, unary_value, wrap_div_v,
    InstanceV, StateV,
};
use crate::token::{Token, TokenKind};
use crate::value::{
    result_view, unit_result_view, NativeFn, RuntimeError, RuntimeResult, RuntimeUnwind,
    RuntimeValue, UnwindV, ValueV,
};

verus! {

/// One object instance: its class declaration node, the scope the class
/// was declared in, and its mutable field table.
#[derive(Debug)]
pub struct Instance {
    pub class_decl: usize,
    pub class_env: usize,
    pub fields: Vec<(String, RuntimeValue)>,
}

impl View for Instance {
    type V = InstanceV;

    open spec fn view(&self) -> InstanceV {
        InstanceV {
            class_decl: self.class_decl as int,
            class_env: self.class_env as int,
            fields: bindings_view(self.fields),
        }
    }
}

/// The image of a vector of runtime values.
pub open spec fn values_view(vals: Seq<RuntimeValue>) -> Seq<ValueV> {
    vals.map_values(|v: RuntimeValue| v@)
}

/// The image of the collected output lines.
pub open spec fn output_view(out: Seq<String>) -> Seq<Seq<char>> {
    out.map_values(|s: String| s@)
}

/// The tree-walking interpreter.
#[derive(Debug)]
pub struct Interpreter {
    /// The scope arena; scope 0 is the global scope.
    pub environment: Environment,
    /// The index of the active scope.
    pub current: usize,
    /// The index of the global scope.
    pub globals: usize,
    /// The resolution map the resolver produced: (token id, distance).
    pub locals: Vec<(usize, usize)>,
    /// The instance table.
    pub instances: Vec<Instance>,
    /// The lines `print` has produced, in order.
    pub output: Vec<String>,
    /// The clock sample the `time` builtin reports.
    pub time_ms: i64,
}

impl View for Interpreter {
    type V = StateV;

    open spec fn view(&self) -> StateV {
        StateV {
            env: self.environment@,
            current: self.current as int,
            globals: self.globals as int,
            locals: self.locals@.map_values(|p: (usize, usize)| (p.0 as int, p.1 as int)),
            instances: self.instances@.map_values(|i: Instance| i@),
            output: output_view(self.output@),
            time: self.time_ms as int,
        }
    }
}

/// How a value reads as a condition, or nothing when its tag is not a
/// valid condition.
pub fn is_truthy(v: &RuntimeValue) -> (r: Option<bool>)
    ensures
        r == truthy(v@),
{
    match v {
        RuntimeValue::Integer(i) => Some(*i != 0),
        RuntimeValue::Bool(b) => Some(*b),
        RuntimeValue::Str(s) => Some(!s.as_str().is_empty()),
        _ => None,
    }
}

/// Truncating division of `a` by a nonzero `b`, wrapping on the one
/// overflowing pair.
pub fn div_i64(a: i64, b: i64) -> (r: i64)
    requires
        b != 0,
    ensures
        r as int == wrap_div_v(a as int, b as int),
{
    if a == i64::MIN && b == -1 {
        i64::MIN
    } else {
        let ua: u64 = if a >= 0 {
            a as u64
        } else {
            (-(a as i128)) as u64
        };
        let ub: u64 = if b >= 0 {
            b as u64
        } else {
            (-(b as i128)) as u64
        };
        let uq: u64 = ua / ub;
        proof {
            assert(ua as int == abs_int(a as int));
            assert(ub as int == abs_int(b as int));
            if ub >= 2 {
                assert(uq <= ua / 2) by (nonlinear_arith)
                    requires
                        ub >= 2,
                        uq == ua / ub,
                ;
            }
        }
        if (a >= 0) == (b >= 0) {
            uq as i64
        } else {
            (-(uq as i128)) as i64
        }
    }
}

/// Apply a unary operator.
pub fn unary_op(kind: TokenKind, v: RuntimeValue) -> (r: RuntimeResult)
    ensures
        result_view(r) == unary_value(kind, v@),
{
    match kind {
        TokenKind::Bang => match is_truthy(&v) {
            Some(t) => Ok(RuntimeValue::Bool(!t)),
            None => Err(RuntimeUnwind::Error(RuntimeError::TypeError)),
        },
        TokenKind::Minus => match v {
            RuntimeValue::Integer(i) => {
                if i == i64::MIN {
                    Ok(RuntimeValue::Integer(i64::MIN))
                } else {
                    Ok(RuntimeValue::Integer(-i))
                }
            },
            _ => Err(RuntimeUnwind::Error(RuntimeError::TypeError)),
        },
        _ => Err(RuntimeUnwind::Error(RuntimeError::TypeError)),
    }
}

/// Apply a binary operator to two evaluated operands.
pub fn binary_op(kind: TokenKind, l: RuntimeValue, r: RuntimeValue) -> (res: RuntimeResult)
    ensures
        result_view(res) == binary_value(kind, l@, r@),
{
    match kind {
        TokenKind::Plus => match (l, r) {
            (RuntimeValue::Integer(a), RuntimeValue::Integer(b)) => Ok(
                RuntimeValue::Integer(a.wrapping_add(b)),
            ),
            (RuntimeValue::Str(a), RuntimeValue::Str(b)) => Ok(
                RuntimeValue::Str(a.concat(b.as_str())),
            ),
            _ => Err(RuntimeUnwind::Error(RuntimeError::TypeError)),
        },
        TokenKind::Minus => match (l, r) {
            (RuntimeValue::Integer(a), RuntimeValue::Integer(b)) => Ok(
                RuntimeValue::Integer(a.wrapping_sub(b)),
            ),
            _ => Err(RuntimeUnwind::Error(RuntimeError::TypeError)),
        },
        TokenKind::Star => match (l, r) {
            (RuntimeValue::Integer(a), RuntimeValue::Integer(b)) => Ok(
                RuntimeValue::Integer(a.wrapping_mul(b)),
            ),
            _ => Err(RuntimeUnwind::Error(RuntimeError::TypeError)),
        },
        TokenKind::Slash => match (l, r) {
            (RuntimeValue::Integer(a), RuntimeValue::Integer(b)) => {
                if b == 0 {
                    Err(RuntimeUnwind::Error(RuntimeError::DivisionByZero))
                } else {
                    Ok(RuntimeValue::Integer(div_i64(a, b)))
                }
            },
            _ => Err(RuntimeUnwind::Error(RuntimeError::TypeError)),
        },
        TokenKind::Greater => match (l, r) {
            (RuntimeValue::Integer(a), RuntimeValue::Integer(b)) => Ok(RuntimeValue::Bool(a > b)),
            _ => Err(RuntimeUnwind::Error(RuntimeError::TypeError)),
        },
        TokenKind::GreaterEqual => match (l, r) {
            (RuntimeValue::Integer(a), RuntimeValue::Integer(b)) => Ok(RuntimeValue::Bool(a >= b)),
            _ => Err(RuntimeUnwind::Error(RuntimeError::TypeError)),
        },
        TokenKind::Less => match (l, r) {
            (RuntimeValue::Integer(a), RuntimeValue::Integer(b)) => Ok(RuntimeValue::Bool(a < b)),
            _ => Err(RuntimeUnwind::Error(RuntimeError::TypeError)),
        },
        TokenKind::LessEqual => match (l, r) {
            (RuntimeValue::Integer(a), RuntimeValue::Integer(b)) => Ok(RuntimeValue::Bool(a <= b)),
            _ => Err(RuntimeUnwind::Error(RuntimeError::TypeError)),
        },
        TokenKind::BangEqual => match (l, r) {
            (RuntimeValue::Integer(a), RuntimeValue::Integer(b)) => Ok(RuntimeValue::Bool(a != b)),
            (RuntimeValue::Str(a), RuntimeValue::Str(b)) => Ok(RuntimeValue::Bool(!(a == b))),
            (RuntimeValue::Bool(a), RuntimeValue::Bool(b)) => Ok(RuntimeValue::Bool(a != b)),
            _ => Err(RuntimeUnwind::Error(RuntimeError::TypeError)),
        },
        TokenKind::EqualEqual => match (l, r) {
            (RuntimeValue::Integer(a), RuntimeValue::Integer(b)) => Ok(RuntimeValue::Bool(a == b)),
            (RuntimeValue::Str(a), RuntimeValue::Str(b)) => Ok(RuntimeValue::Bool(a == b)),
            (RuntimeValue::Bool(a), RuntimeValue::Bool(b)) => Ok(RuntimeValue::Bool(a == b)),
            _ => Err(RuntimeUnwind::Error(RuntimeError::TypeError)),
        },
        TokenKind::DotDot => match (l, r) {
            (RuntimeValue::Integer(a), RuntimeValue::Integer(b)) => Ok(RuntimeValue::Range(a, b)),
            _ => Err(RuntimeUnwind::Error(RuntimeError::TypeError)),
        },
        _ => Err(RuntimeUnwind::Error(RuntimeError::TypeError)),
    }
}

/// The first method in `methods` (from entry `i` on) that is a function
/// declaration named `name`.
fn find_method(nodes: &Vec<Node>, methods: &Vec<usize>, i: usize, name: &String) -> (r: Option<
    usize,
>)
    requires
        i <= methods@.len(),
    ensures
        match r {
            Some(m) => find_method_from(nodes@, methods@, i as int, name@) == Some(m as int) && m
                < nodes@.len(),
            None => find_method_from(nodes@, methods@, i as int, name@) is None,
        },
    decreases methods@.len() - i,
{
    if i >= methods.len() {
        return None;
    }
    let m = methods[i];
    if m < nodes.len() {
        match &nodes[m] {
            Node::Stmt(Stmt::Fn { name: tok, .. }) => {
                if tok.lexeme == *name {
                    return Some(m);
                }
            },
            _ => {},
        }
    }
    find_method(nodes, methods, i + 1, name)
}

impl Interpreter {
    /// A fresh interpreter: one global scope holding the native builtins,
    /// the resolution map taken from the given resolver, and a clock sample
    /// taken now.
    pub fn new(resolver: Resolver) -> (r: Self)
        ensures
            r@.env == crate::environment::env_define(
                crate::environment::env_define(
                    seq![ScopeV { enclosing: None, values: Seq::empty() }],
                    0,
                    "time"@,
                    ValueV::Native(NativeFn::Time),
                ),
                0,
                "assert"@,
                ValueV::Native(NativeFn::Assert),
            ),
            r@.current == 0,
            r@.globals == 0,
            r@.locals == resolver@.resolutions,
            r@.instances == Seq::<InstanceV>::empty(),
            r@.output == Seq::<Seq<char>>::empty(),
            r@.time >= 0,
    {
        let mut environment = Environment::new();
        define_globals(&mut environment);
        let r = Interpreter {
            environment,
            current: 0,
            globals: 0,
            locals: resolver.resolutions,
            instances: Vec::new(),
            output: Vec::new(),
            time_ms: now_millis(),
        };
        proof {
            assert(r@.instances =~= Seq::<InstanceV>::empty());
            assert(r@.output =~= Seq::<Seq<char>>::empty());
            assert(r@.locals =~= resolver@.resolutions);
        }
        r
    }

    /// The resolved distance recorded for token id `id`, scanning the map
    /// from entry `i` on.
    fn lookup_resolution_from(&self, i: usize, id: usize) -> (r: Option<usize>)
        requires
            i <= self.locals@.len(),
        ensures
            match r {
                Some(d) => locals_get_from(self@.locals, i as int, id as int) == Some(d as int),
                None => locals_get_from(self@.locals, i as int, id as int) is None,
            },
        decreases self.locals@.len() - i,
    {
        if i >= self.locals.len() {
            return None;
        }
        if self.locals[i].0 == id {
            return Some(self.locals[i].1);
        }
        self.lookup_resolution_from(i + 1, id)
    }

    /// Variable lookup: a resolved reference jumps by its distance; an
    /// unresolved one must be bound in the global scope.
    fn look_up_variable(&self, tok: &Token) -> (r: RuntimeResult)
        ensures
            result_view(r) == lookup_variable(self@, *tok),
    {
        match self.lookup_resolution_from(0, tok.id) {
            Some(d) => match self.environment.get_at(self.current, d, &tok.lexeme) {
                Some(v) => Ok(v),
                None => Err(
                    RuntimeUnwind::Error(RuntimeError::UndefinedVariable(tok.lexeme.clone())),
                ),
            },
            None => match self.environment.get(self.globals, &tok.lexeme) {
                Some(v) => Ok(v),
                None => Err(
                    RuntimeUnwind::Error(RuntimeError::UndefinedVariable(tok.lexeme.clone())),
                ),
            },
        }
    }
}

} // verus!

verus! {

impl Interpreter {
    /// Evaluate the expression at node `e`.
    #[verifier::rlimit(100)]
    #[verifier::spinoff_prover]
    pub fn eval(&mut self, nodes: &Vec<Node>, e: usize, fuel: u64) -> (r: RuntimeResult)
        ensures
            ({
                let (st2, rv) = eval_expr_spec(nodes@, old(self)@, e as int, fuel as nat);
                final(self)@ == st2 && result_view(r) == rv
            }),
        decreases fuel, 1int,
    {
        if fuel == 0 {
            return Err(RuntimeUnwind::Error(RuntimeError::RecursionLimit));
        }
        if e >= nodes.len() {
            return Err(RuntimeUnwind::Error(RuntimeError::TypeError));
        }
        match &nodes[e] {
            Node::Stmt(_) => Err(RuntimeUnwind::Error(RuntimeError::TypeError)),
            Node::Expr(ex) => match ex {
                Expr::Literal(l) => match l {
                    crate::ast::LiteralExpr::Bool(b) => Ok(RuntimeValue::Bool(*b)),
                    crate::ast::LiteralExpr::Integer(n) => Ok(RuntimeValue::Integer(*n)),
                    crate::ast::LiteralExpr::Str(s) => Ok(RuntimeValue::Str(s.clone())),
                },
                Expr::Unary { operator, right } => {
                    let v = self.eval(nodes, *right, fuel - 1)?;
                    unary_op(operator.kind, v)
                },
                Expr::Binary { left, operator, right } => {
                    let vl = self.eval(nodes, *left, fuel - 1)?;
                    let vr = self.eval(nodes, *right, fuel - 1)?;
                    binary_op(operator.kind, vl, vr)
                },
                Expr::Logical { left, operator, right } => {
                    let vl = self.eval(nodes, *left, fuel - 1)?;
                    match is_truthy(&vl) {
                        Some(t) => {
                            if operator.kind == TokenKind::And {
                                if !t {
                                    Ok(vl)
                                } else {
                                    self.eval(nodes, *right, fuel - 1)
                                }
                            } else if operator.kind == TokenKind::Or {
                                if t {
                                    Ok(vl)
                                } else {
                                    self.eval(nodes, *right, fuel - 1)
                                }
                            } else {
                                Err(RuntimeUnwind::Error(RuntimeError::TypeError))
                            }
                        },
                        None => Err(RuntimeUnwind::Error(RuntimeError::TypeError)),
                    }
                },
                Expr::Group(inner) => self.eval(nodes, *inner, fuel - 1),
                Expr::Variable(tok) => self.look_up_variable(tok),
                Expr::Assignment { name, value } => {
                    let v = self.eval(nodes, *value, fuel - 1)?;
                    match self.lookup_resolution_from(0, name.id) {
                        Some(d) => {
                            match self.environment.assign_at(
                                self.current,
                                d,
                                &name.lexeme,
                                v.clone(),
                            ) {
                                Ok(_) => Ok(v),
                                Err(er) => Err(RuntimeUnwind::Error(er)),
                            }
                        },
                        None => {
                            match self.environment.assign(self.globals, &name.lexeme, v.clone()) {
                                Ok(_) => Ok(v),
                                Err(er) => Err(RuntimeUnwind::Error(er)),
                            }
                        },
                    }
                },
                Expr::Block { stmts, return_expr } => {
                    let prev = self.current;
                    let child = self.environment.create_child(prev);
                    self.current = child;
                    match self.exec_stmts(nodes, stmts, 0, fuel - 1) {
                        Err(u) => {
                            self.current = prev;
                            Err(u)
                        },
                        Ok(_) => match return_expr {
                            Some(re) => {
                                let rv = self.eval(nodes, *re, fuel - 1);
                                self.current = prev;
                                rv
                            },
                            None => {
                                self.current = prev;
                                Ok(RuntimeValue::Unit)
                            },
                        },
                    }
                },
                Expr::If { condition, then_branch, else_branch } => {
                    let vc = self.eval(nodes, *condition, fuel - 1)?;
                    match is_truthy(&vc) {
                        Some(t) => {
                            if t {
                                self.eval(nodes, *then_branch, fuel - 1)
                            } else {
                                match else_branch {
                                    Some(eb) => self.eval(nodes, *eb, fuel - 1),
                                    None => Ok(RuntimeValue::Unit),
                                }
                            }
                        },
                        None => Err(RuntimeUnwind::Error(RuntimeError::TypeError)),
                    }
                },
                Expr::While { condition, body } => {
                    let vc = self.eval(nodes, *condition, fuel - 1)?;
                    match is_truthy(&vc) {
                        Some(t) => {
                            if !t {
                                Ok(RuntimeValue::Unit)
                            } else {
                                match self.eval(nodes, *body, fuel - 1) {
                                    Ok(_) => self.eval(nodes, e, fuel - 1),
                                    Err(u) => Err(u),
                                }
                            }
                        },
                        None => Err(RuntimeUnwind::Error(RuntimeError::TypeError)),
                    }
                },
                Expr::For { variable, iterable, body } => {
                    if *variable >= nodes.len() {
                        return Err(RuntimeUnwind::Error(RuntimeError::TypeError));
                    }
                    let lex = match &nodes[*variable] {
                        Node::Expr(Expr::Variable(tok)) => tok.lexeme.clone(),
                        _ => {
                            return Err(RuntimeUnwind::Error(RuntimeError::TypeError));
                        },
                    };
                    match self.eval(nodes, *iterable, fuel - 1) {
                        Ok(RuntimeValue::Range(lo, hi)) => {
                            let prev = self.current;
                            let child = self.environment.create_child(prev);
                            self.current = child;
                            self.environment.define(child, &lex, RuntimeValue::Integer(lo));
                            let rf = self.for_loop(nodes, &lex, lo, hi, *body, fuel - 1);
                            self.current = prev;
                            rf
                        },
                        Ok(_) => Err(RuntimeUnwind::Error(RuntimeError::TypeError)),
                        Err(u) => Err(u),
                    }
                },
                Expr::Call { callee, args, .. } => {
                    let vals = match self.eval_args(nodes, args, 0, fuel - 1) {
                        Ok(vs) => vs,
                        Err(u) => {
                            return Err(u);
                        },
                    };
                    let f = self.eval(nodes, *callee, fuel - 1)?;
                    self.call_value(nodes, f, vals, fuel - 1)
                },
                Expr::FieldAccess { object, name } => {
                    match self.eval(nodes, *object, fuel - 1) {
                        Ok(RuntimeValue::Instance(inst)) => self.instance_get(
                            nodes,
                            inst,
                            &name.lexeme,
                        ),
                        Ok(_) => Err(RuntimeUnwind::Error(RuntimeError::TypeError)),
                        Err(u) => Err(u),
                    }
                },
                Expr::FieldSet { object, name, value } => {
                    match self.eval(nodes, *object, fuel - 1) {
                        Ok(RuntimeValue::Instance(inst)) => {
                            let v = self.eval(nodes, *value, fuel - 1)?;
                            let ghost st2v = self@;
                            let ghost vv = v@;
                            if inst < self.instances.len() {
                                let rec = &mut self.instances[inst];
                                bindings_set(&mut rec.fields, &name.lexeme, v.clone());
                                proof {
                                    let old_inst = st2v.instances[inst as int];
                                    assert(self@.instances =~~= st2v.instances.update(
                                        inst as int,
                                        InstanceV {
                                            fields: crate::environment::scope_set(
                                                old_inst.fields,
                                                name.lexeme@,
                                                vv,
                                            ),
                                            ..old_inst
                                        },
                                    ));
                                }
                                Ok(v)
                            } else {
                                Err(RuntimeUnwind::Error(RuntimeError::TypeError))
                            }
                        },
                        Ok(_) => Err(RuntimeUnwind::Error(RuntimeError::TypeError)),
                        Err(u) => Err(u),
                    }
                },
                Expr::Return { value, .. } => match value {
                    Some(v) => {
                        let val = self.eval(nodes, *v, fuel - 1)?;
                        Err(RuntimeUnwind::Return(val))
                    },
                    None => Err(RuntimeUnwind::Return(RuntimeValue::Unit)),
                },
            },
        }
    }

    /// Reading a field of an instance: a stored field, or a method bound to
    /// the instance on the fly.
    fn instance_get(&mut self, nodes: &Vec<Node>, inst: usize, name: &String) -> (r: RuntimeResult)
        ensures
            ({
                let (st2, rv) = instance_get_spec(nodes@, old(self)@, inst as int, name@);
                final(self)@ == st2 && result_view(r) == rv
            }),
    {
        if inst >= self.instances.len() {
            return Err(RuntimeUnwind::Error(RuntimeError::TypeError));
        }
        match bindings_get(&self.instances[inst].fields, name) {
            Some(v) => Ok(v),
            None => {
                let cd = self.instances[inst].class_decl;
                let ce = self.instances[inst].class_env;
                if cd >= nodes.len() {
                    return Err(RuntimeUnwind::Error(RuntimeError::TypeError));
                }
                match &nodes[cd] {
                    Node::Stmt(Stmt::Class { methods, .. }) => {
                        match find_method(nodes, methods, 0, name) {
                            Some(m) => {
                                if ce >= self.environment.len() {
                                    Err(RuntimeUnwind::Error(RuntimeError::TypeError))
                                } else {
                                    let bind_scope = self.environment.create_child(ce);
                                    let this_name = "this".to_owned();
                                    self.environment.define(
                                        bind_scope,
                                        &this_name,
                                        RuntimeValue::Instance(inst),
                                    );
                                    Ok(RuntimeValue::Function { decl: m, env: bind_scope })
                                }
                            },
                            None => Err(
                                RuntimeUnwind::Error(
                                    RuntimeError::UndefinedVariable(name.clone()),
                                ),
                            ),
                        }
                    },
                    _ => Err(RuntimeUnwind::Error(RuntimeError::TypeError)),
                }
            },
        }
    }

    /// One run of a `for` loop from induction value `i`.
    fn for_loop(
        &mut self,
        nodes: &Vec<Node>,
        name: &String,
        i: i64,
        hi: i64,
        body: usize,
        fuel: u64,
    ) -> (r: RuntimeResult)
        ensures
            ({
                let (st2, rv) = for_loop_spec(
                    nodes@,
                    old(self)@,
                    name@,
                    i as int,
                    hi as int,
                    body as int,
                    fuel as nat,
                );
                final(self)@ == st2 && result_view(r) == rv
            }),
        decreases fuel, 1int,
    {
        if fuel == 0 {
            return Err(RuntimeUnwind::Error(RuntimeError::RecursionLimit));
        }
        if i >= hi {
            return Ok(RuntimeValue::Unit);
        }
        match self.environment.assign(self.current, name, RuntimeValue::Integer(i)) {
            Err(er) => Err(RuntimeUnwind::Error(er)),
            Ok(_) => {
                match self.eval(nodes, body, fuel - 1) {
                    Err(u) => Err(u),
                    Ok(_) => self.for_loop(nodes, name, i + 1, hi, body, fuel - 1),
                }
            },
        }
    }

    /// Evaluate the argument expressions from index `i` on, left to right.
    fn eval_args(&mut self, nodes: &Vec<Node>, args: &Vec<usize>, i: usize, fuel: u64) -> (r:
        Result<Vec<RuntimeValue>, RuntimeUnwind>)
        requires
            i <= args@.len(),
        ensures
            ({
                let (st2, rv) = eval_args_spec(nodes@, old(self)@, args@, i as int, fuel as nat);
                final(self)@ == st2 && match r {
                    Ok(vs) => rv == Ok::<Seq<ValueV>, UnwindV>(values_view(vs@)),
                    Err(u) => rv == Err::<Seq<ValueV>, UnwindV>(u@),
                }
            }),
        decreases fuel, 1int,
    {
        if fuel == 0 {
            return Err(RuntimeUnwind::Error(RuntimeError::RecursionLimit));
        }
        if i >= args.len() {
            let empty: Vec<RuntimeValue> = Vec::new();
            proof {
                assert(values_view(empty@) =~= Seq::<ValueV>::empty());
            }
            return Ok(empty);
        }
        let v = self.eval(nodes, args[i], fuel - 1)?;
        let ghost vv = v@;
        let mut rest = self.eval_args(nodes, args, i + 1, fuel - 1)?;
        let ghost rest0 = rest@;
        rest.insert(0, v);
        proof {
            assert(values_view(rest@) =~= seq![vv] + values_view(rest0));
        }
        Ok(rest)
    }

    /// Call a callee value on already-evaluated arguments.
    fn call_value(
        &mut self,
        nodes: &Vec<Node>,
        callee: RuntimeValue,
        args: Vec<RuntimeValue>,
        fuel: u64,
    ) -> (r: RuntimeResult)
        ensures
            ({
                let (st2, rv) = call_value_spec(
                    nodes@,
                    old(self)@,
                    callee@,
                    values_view(args@),
                    fuel as nat,
                );
                final(self)@ == st2 && result_view(r) == rv
            }),
        decreases fuel, 1int,
    {
        if fuel == 0 {
            return Err(RuntimeUnwind::Error(RuntimeError::RecursionLimit));
        }
        match callee {
            RuntimeValue::Function { decl, env } => self.call_closure(
                nodes,
                decl,
                env,
                args,
                fuel - 1,
            ),
            RuntimeValue::Native(NativeFn::Time) => {
                if args.len() != 0 {
                    Err(RuntimeUnwind::Error(RuntimeError::TypeError))
                } else {
                    Ok(RuntimeValue::Integer(self.time_ms))
                }
            },
            RuntimeValue::Native(NativeFn::Assert) => {
                if args.len() != 2 {
                    Err(RuntimeUnwind::Error(RuntimeError::TypeError))
                } else {
                    assert_builtin(&args[0], &args[1])
                }
            },
            RuntimeValue::Class { decl, env } => self.call_class(nodes, decl, env, args, fuel - 1),
            _ => Err(RuntimeUnwind::Error(RuntimeError::TypeError)),
        }
    }

    /// Call the closure declared at node `decl` with captured scope `env`.
    fn call_closure(
        &mut self,
        nodes: &Vec<Node>,
        decl: usize,
        env: usize,
        args: Vec<RuntimeValue>,
        fuel: u64,
    ) -> (r: RuntimeResult)
        ensures
            ({
                let (st2, rv) = closure_call_spec(
                    nodes@,
                    old(self)@,
                    decl as int,
                    env as int,
                    values_view(args@),
                    fuel as nat,
                );
                final(self)@ == st2 && result_view(r) == rv
            }),
        decreases fuel, 1int,
    {
        if fuel == 0 {
            return Err(RuntimeUnwind::Error(RuntimeError::RecursionLimit));
        }
        if decl >= nodes.len() {
            return Err(RuntimeUnwind::Error(RuntimeError::TypeError));
        }
        match &nodes[decl] {
            Node::Stmt(Stmt::Fn { params, body, .. }) => {
                if params.len() != args.len() {
                    return Err(RuntimeUnwind::Error(RuntimeError::TypeError));
                }
                if env >= self.environment.len() {
                    return Err(RuntimeUnwind::Error(RuntimeError::TypeError));
                }
                let prev = self.current;
                let child = self.environment.create_child(env);
                let ghost st_pre = self@;
                let n = params.len();
                let mut i: usize = 0;
                while i < n
                    invariant
                        n == params@.len(),
                        n == args@.len(),
                        0 <= i <= n,
                        child < self@.env.len(),
                        self@ == st_pre.with_env(self@.env),
                        crate::semantics::bind_params(
                            st_pre.env,
                            child as int,
                            params@,
                            values_view(args@),
                            0,
                        ) == crate::semantics::bind_params(
                            self@.env,
                            child as int,
                            params@,
                            values_view(args@),
                            i as int,
                        ),
                    decreases n - i,
                {
                    let lex = params[i].lexeme.clone();
                    self.environment.define(child, &lex, args[i].clone());
                    i = i + 1;
                }
                self.current = child;
                let r = self.eval(nodes, *body, fuel - 1);
                self.current = prev;
                match r {
                    Ok(v) => Ok(v),
                    Err(RuntimeUnwind::Return(v)) => Ok(v),
                    Err(RuntimeUnwind::Error(er)) => Err(RuntimeUnwind::Error(er)),
                }
            },
            _ => Err(RuntimeUnwind::Error(RuntimeError::TypeError)),
        }
    }

    /// Call a class: allocate an instance and run `init` on it when the
    /// class declares one.
    fn call_class(
        &mut self,
        nodes: &Vec<Node>,
        decl: usize,
        env: usize,
        args: Vec<RuntimeValue>,
        fuel: u64,
    ) -> (r: RuntimeResult)
        ensures
            ({
                let (st2, rv) = class_call_spec(
                    nodes@,
                    old(self)@,
                    decl as int,
                    env as int,
                    values_view(args@),
                    fuel as nat,
                );
                final(self)@ == st2 && result_view(r) == rv
            }),
        decreases fuel, 1int,
    {
        if fuel == 0 {
            return Err(RuntimeUnwind::Error(RuntimeError::RecursionLimit));
        }
        if decl >= nodes.len() {
            return Err(RuntimeUnwind::Error(RuntimeError::TypeError));
        }
        match &nodes[decl] {
            Node::Stmt(Stmt::Class { methods, .. }) => {
                let init_name = "init".to_owned();
                let init = find_method(nodes, methods, 0, &init_name);
                let arity: usize = match init {
                    Some(m) => {
                        match &nodes[m] {
                            Node::Stmt(Stmt::Fn { params, .. }) => params.len(),
                            _ => 0,
                        }
                    },
                    None => 0,
                };
                if args.len() != arity {
                    return Err(RuntimeUnwind::Error(RuntimeError::TypeError));
                }
                if env >= self.environment.len() {
                    return Err(RuntimeUnwind::Error(RuntimeError::TypeError));
                }
                let inst = self.instances.len();
                self.instances.push(
                    Instance { class_decl: decl, class_env: env, fields: Vec::new() },
                );
                proof {
                    assert(self@.instances =~~= old(self)@.instances.push(
                        InstanceV {
                            class_decl: decl as int,
                            class_env: env as int,
                            fields: Seq::empty(),
                        },
                    ));
                }
                match init {
                    None => Ok(RuntimeValue::Instance(inst)),
                    Some(m) => {
                        let bind_scope = self.environment.create_child(env);
                        let this_name = "this".to_owned();
                        self.environment.define(
                            bind_scope,
                            &this_name,
                            RuntimeValue::Instance(inst),
                        );
                        match self.call_closure(nodes, m, bind_scope, args, fuel - 1) {
                            Ok(_) => Ok(RuntimeValue::Instance(inst)),
                            Err(u) => Err(u),
                        }
                    },
                }
            },
            _ => Err(RuntimeUnwind::Error(RuntimeError::TypeError)),
        }
    }

    /// Execute the statement at node `s`.
    #[verifier::rlimit(100)]
    #[verifier::spinoff_prover]
    fn exec_stmt(&mut self, nodes: &Vec<Node>, s: usize, fuel: u64) -> (r: Result<
        (),
        RuntimeUnwind,
    >)
        ensures
            ({
                let (st2, rv) = exec_stmt_spec(nodes@, old(self)@, s as int, fuel as nat);
                final(self)@ == st2 && unit_result_view(r) == rv
            }),
        decreases fuel, 1int,
    {
        if fuel == 0 {
            return Err(RuntimeUnwind::Error(RuntimeError::RecursionLimit));
        }
        if s >= nodes.len() {
            return Err(RuntimeUnwind::Error(RuntimeError::TypeError));
        }
        match &nodes[s] {
            Node::Expr(_) => Err(RuntimeUnwind::Error(RuntimeError::TypeError)),
            Node::Stmt(stm) => match stm {
                Stmt::Print(e) => self.stmt_print(nodes, *e, fuel - 1),
                Stmt::Expr { expr, .. } => {
                    self.eval(nodes, *expr, fuel - 1)?;
                    Ok(())
                },
                Stmt::Var { name, initializer } => {
                    let v = match initializer {
                        Some(init) => self.eval(nodes, *init, fuel - 1)?,
                        None => RuntimeValue::Unit,
                    };
                    self.environment.define(self.current, &name.lexeme, v);
                    Ok(())
                },
                Stmt::Fn { name, .. } => {
                    self.environment.define(
                        self.current,
                        &name.lexeme,
                        RuntimeValue::Function { decl: s, env: self.current },
                    );
                    Ok(())
                },
                Stmt::Class { name, .. } => self.stmt_class(name, s),
            },
        }
    }

    /// The `print` statement: evaluate, render, append to the output.
    fn stmt_print(&mut self, nodes: &Vec<Node>, e: usize, fuel: u64) -> (r: Result<
        (),
        RuntimeUnwind,
    >)
        ensures
            ({
                let (st1, rv) = eval_expr_spec(nodes@, old(self)@, e as int, fuel as nat);
                match rv {
                    Ok(v) => final(self)@ == st1.push_output(crate::value::display_of(v)) && r
                        is Ok,
                    Err(u) => final(self)@ == st1 && unit_result_view(r) == Err::<(), UnwindV>(u),
                }
            }),
        decreases fuel, 2int,
    {
        let v = self.eval(nodes, e, fuel)?;
        let line = v.display();
        self.output.push(line);
        proof {
            let ghost (st1, rv) = eval_expr_spec(nodes@, old(self)@, e as int, fuel as nat);
            assert(self@.output =~= st1.output.push(crate::value::display_of(v@)));
            assert(self@ =~~= st1.push_output(crate::value::display_of(v@)));
        }
        Ok(())
    }

    /// The class declaration statement: bind the name to unit, then assign
    /// the class value over it.
    fn stmt_class(&mut self, name: &Token, s: usize) -> (r: Result<(), RuntimeUnwind>)
        ensures
            ({
                let st1 = old(self)@.with_env(
                    crate::environment::env_define(
                        old(self)@.env,
                        old(self)@.current,
                        name.lexeme@,
                        ValueV::Unit,
                    ),
                );
                let (env2, ar) = crate::environment::chain_assign(
                    st1.env,
                    st1.current,
                    name.lexeme@,
                    ValueV::Class { decl: s as int, env: st1.current },
                );
                final(self)@ == st1.with_env(env2) && match ar {
                    Ok(_) => r is Ok,
                    Err(er) => unit_result_view(r) == Err::<(), UnwindV>(UnwindV::Error(er)),
                }
            }),
    {
        self.environment.define(self.current, &name.lexeme, RuntimeValue::Unit);
        match self.environment.assign(
            self.current,
            &name.lexeme,
            RuntimeValue::Class { decl: s, env: self.current },
        ) {
            Ok(_) => Ok(()),
            Err(er) => Err(RuntimeUnwind::Error(er)),
        }
    }

    /// Execute the statements in `stmts` from index `i` on, stopping at the
    /// first unwind.
    fn exec_stmts(&mut self, nodes: &Vec<Node>, stmts: &Vec<usize>, i: usize, fuel: u64) -> (r:
        Result<(), RuntimeUnwind>)
        requires
            i <= stmts@.len(),
        ensures
            ({
                let (st2, rv) = exec_stmts_spec(nodes@, old(self)@, stmts@, i as int, fuel as nat);
                final(self)@ == st2 && unit_result_view(r) == rv
            }),
        decreases fuel, 1int,
    {
        if fuel == 0 {
            return Err(RuntimeUnwind::Error(RuntimeError::RecursionLimit));
        }
        if i >= stmts.len() {
            return Ok(());
        }
        self.exec_stmt(nodes, stmts[i], fuel - 1)?;
        self.exec_stmts(nodes, stmts, i + 1, fuel - 1)
    }

    /// Run a whole program: execute every top-level statement in order,
    /// stopping at the first unwind.
    pub fn interpret(&mut self, program: &Program, fuel: u64) -> (r: Result<(), RuntimeUnwind>)
        ensures
            ({
                let (st2, rv) = exec_stmts_spec(
                    program.nodes@,
                    old(self)@,
                    program.top@,
                    0,
                    fuel as nat,
                );
                final(self)@ == st2 && unit_result_view(r) == rv
            }),
    {
        self.exec_stmts(&program.nodes, &program.top, 0, fuel)
    }
}

} // verus!
