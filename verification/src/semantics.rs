//! The meaning of programs, stated as specification functions: a big-step,
//! fuel-bounded evaluation semantics over the specification images of the
//! interpreter state.  The executable interpreter is proved to return
//! exactly what these functions say, arm by arm.
//!
//! The fuel parameter bounds evaluation depth and loop unrollings; running
//! out yields a `RecursionLimit` error, the analogue of exhausting the host
//! call stack on deeply recursive programs.

use vstd::prelude::*;

use crate::ast::{Expr, LiteralExpr, Node, Stmt};
use crate::environment::{
    chain_assign, chain_get, env_assign_at, env_define, env_get_at, scope_get, scope_set,
    BindingsV, EnvV, ScopeV,
};
use crate::token::Token;
use crate::value::{display_of, ErrorV, NativeFn, ResultV, UnwindV, ValueV};

verus! {

/// The specification-level image of one object instance.
#[verifier::ext_equal]
pub struct InstanceV {
    /// Arena index of the `Class` declaration node this is an instance of.
    pub class_decl: int,
    /// The scope the class was declared in; methods close over it.
    pub class_env: int,
    /// The instance's fields, name to value.
    pub fields: BindingsV,
}

/// The specification-level image of the whole interpreter state.
#[verifier::ext_equal]
pub struct StateV {
    /// The scope arena.
    pub env: EnvV,
    /// The index of the active scope.
    pub current: int,
    /// The index of the global scope.
    pub globals: int,
    /// The resolution map: pairs of (token id, lexical distance).
    pub locals: Seq<(int, int)>,
    /// The instance table.
    pub instances: Seq<InstanceV>,
    /// The lines printed so far.
    pub output: Seq<Seq<char>>,
    /// What the clock read when the interpreter was created.
    pub time: int,
}

impl StateV {
    /// The same state with another scope arena.
    pub open spec fn with_env(self, env: EnvV) -> StateV {
        StateV { env, ..self }
    }

    /// The same state with another active scope.
    pub open spec fn with_current(self, current: int) -> StateV {
        StateV { current, ..self }
    }

    /// The same state with a fresh scope appended, enclosed by `parent`.
    pub open spec fn push_scope(self, parent: int) -> StateV {
        StateV {
            env: self.env.push(ScopeV { enclosing: Some(parent), values: Seq::empty() }),
            ..self
        }
    }

    /// The same state with one more printed line.
    pub open spec fn push_output(self, line: Seq<char>) -> StateV {
        StateV { output: self.output.push(line), ..self }
    }

    /// The same state with a fresh instance appended.
    pub open spec fn push_instance(self, inst: InstanceV) -> StateV {
        StateV { instances: self.instances.push(inst), ..self }
    }
}

/// A state change paired with the value an expression yielded.
pub type StepV = (StateV, ResultV);

/// A state change paired with a statement's outcome.
pub type StmtStepV = (StateV, Result<(), UnwindV>);

/// The resolved distance recorded for token id `id`, if any, scanning the
/// map from entry `i` on.
pub open spec fn locals_get_from(locals: Seq<(int, int)>, i: int, id: int) -> Option<int>
    decreases locals.len() - i,
{
    if !(0 <= i < locals.len()) {
        None
    } else if locals[i].0 == id {
        Some(locals[i].1)
    } else {
        locals_get_from(locals, i + 1, id)
    }
}

/// The resolved distance recorded for token id `id`, if any.
pub open spec fn locals_get(locals: Seq<(int, int)>, id: int) -> Option<int> {
    locals_get_from(locals, 0, id)
}

/// The value of a literal expression.
pub open spec fn lit_value(l: LiteralExpr) -> ValueV {
    match l {
        LiteralExpr::Bool(b) => ValueV::Bool(b),
        LiteralExpr::Integer(n) => ValueV::Int(n as int),
        LiteralExpr::Str(s) => ValueV::Str(s@),
    }
}

/// How a value reads as a condition: integers are true iff nonzero,
/// booleans are themselves, strings are true iff non-empty; nothing else is
/// a valid condition.
pub open spec fn truthy(v: ValueV) -> Option<bool> {
    match v {
        ValueV::Int(i) => Some(i != 0),
        ValueV::Bool(b) => Some(b),
        ValueV::Str(s) => Some(s.len() != 0),
        _ => None,
    }
}

/// Whether an integer is representable in `i64`.
pub open spec fn int_in_i64(x: int) -> bool {
    i64::MIN <= x <= i64::MAX
}

/// Wrapping `i64` addition, lifted to the integers the value images carry.
pub open spec fn wrap_add_v(a: int, b: int) -> int {
    if int_in_i64(a) && int_in_i64(b) {
        vstd::wrapping::i64_specs::wrapping_add(a as i64, b as i64) as int
    } else {
        0
    }
}

/// Wrapping `i64` subtraction.
pub open spec fn wrap_sub_v(a: int, b: int) -> int {
    if int_in_i64(a) && int_in_i64(b) {
        vstd::wrapping::i64_specs::wrapping_sub(a as i64, b as i64) as int
    } else {
        0
    }
}

/// Wrapping `i64` multiplication.
pub open spec fn wrap_mul_v(a: int, b: int) -> int {
    if int_in_i64(a) && int_in_i64(b) {
        vstd::wrapping::i64_specs::wrapping_mul(a as i64, b as i64) as int
    } else {
        0
    }
}

/// Wrapping `i64` negation.
pub open spec fn wrap_neg_v(a: int) -> int {
    if a == i64::MIN {
        a
    } else if int_in_i64(a) {
        -a
    } else {
        0
    }
}

/// Absolute value.
pub open spec fn abs_int(a: int) -> int {
    if a >= 0 {
        a
    } else {
        -a
    }
}

/// Truncating (toward zero) integer division, as the host's `/` computes
/// it.
pub open spec fn div_trunc(a: int, b: int) -> int {
    if (a >= 0) == (b >= 0) {
        abs_int(a) / abs_int(b)
    } else {
        -(abs_int(a) / abs_int(b))
    }
}

/// Wrapping truncating `i64` division of `a` by a nonzero `b`.
pub open spec fn wrap_div_v(a: int, b: int) -> int {
    if int_in_i64(a) && int_in_i64(b) {
        if a == i64::MIN && b == -1 {
            i64::MIN as int
        } else {
            div_trunc(a, b)
        }
    } else {
        0
    }
}

/// The unary operators: `!` negates truthiness, `-` negates an integer
/// (wrapping, as the host does).
pub open spec fn unary_value(kind: crate::token::TokenKind, v: ValueV) -> ResultV {
    match kind {
        crate::token::TokenKind::Bang => match truthy(v) {
            Some(t) => Ok(ValueV::Bool(!t)),
            None => Err(UnwindV::Error(ErrorV::TypeError)),
        },
        crate::token::TokenKind::Minus => match v {
            ValueV::Int(i) => Ok(ValueV::Int(wrap_neg_v(i))),
            _ => Err(UnwindV::Error(ErrorV::TypeError)),
        },
        _ => Err(UnwindV::Error(ErrorV::TypeError)),
    }
}

/// The binary operators, dispatching on the operand tag pair.  Arithmetic
/// is defined only for matching integer tags and wraps as the host does;
/// `+` also concatenates strings; comparisons order integers; equality is
/// defined per matching tag among integers, strings and booleans; `..`
/// builds a range from two integers.  Every unmatched pair is a type error.
pub open spec fn binary_value(kind: crate::token::TokenKind, l: ValueV, r: ValueV) -> ResultV {
    match kind {
        crate::token::TokenKind::Plus => match (l, r) {
            (ValueV::Int(a), ValueV::Int(b)) => Ok(ValueV::Int(wrap_add_v(a, b))),
            (ValueV::Str(a), ValueV::Str(b)) => Ok(ValueV::Str(a + b)),
            _ => Err(UnwindV::Error(ErrorV::TypeError)),
        },
        crate::token::TokenKind::Minus => match (l, r) {
            (ValueV::Int(a), ValueV::Int(b)) => Ok(ValueV::Int(wrap_sub_v(a, b))),
            _ => Err(UnwindV::Error(ErrorV::TypeError)),
        },
        crate::token::TokenKind::Star => match (l, r) {
            (ValueV::Int(a), ValueV::Int(b)) => Ok(ValueV::Int(wrap_mul_v(a, b))),
            _ => Err(UnwindV::Error(ErrorV::TypeError)),
        },
        crate::token::TokenKind::Slash => match (l, r) {
            (ValueV::Int(a), ValueV::Int(b)) => if b == 0 {
                Err(UnwindV::Error(ErrorV::DivisionByZero))
            } else {
                Ok(ValueV::Int(wrap_div_v(a, b)))
            },
            _ => Err(UnwindV::Error(ErrorV::TypeError)),
        },
        crate::token::TokenKind::Greater => match (l, r) {
            (ValueV::Int(a), ValueV::Int(b)) => Ok(ValueV::Bool(a > b)),
            _ => Err(UnwindV::Error(ErrorV::TypeError)),
        },
        crate::token::TokenKind::GreaterEqual => match (l, r) {
            (ValueV::Int(a), ValueV::Int(b)) => Ok(ValueV::Bool(a >= b)),
            _ => Err(UnwindV::Error(ErrorV::TypeError)),
        },
        crate::token::TokenKind::Less => match (l, r) {
            (ValueV::Int(a), ValueV::Int(b)) => Ok(ValueV::Bool(a < b)),
            _ => Err(UnwindV::Error(ErrorV::TypeError)),
        },
        crate::token::TokenKind::LessEqual => match (l, r) {
            (ValueV::Int(a), ValueV::Int(b)) => Ok(ValueV::Bool(a <= b)),
            _ => Err(UnwindV::Error(ErrorV::TypeError)),
        },
        crate::token::TokenKind::BangEqual => match (l, r) {
            (ValueV::Int(a), ValueV::Int(b)) => Ok(ValueV::Bool(a != b)),
            (ValueV::Str(a), ValueV::Str(b)) => Ok(ValueV::Bool(a != b)),
            (ValueV::Bool(a), ValueV::Bool(b)) => Ok(ValueV::Bool(a != b)),
            _ => Err(UnwindV::Error(ErrorV::TypeError)),
        },
        crate::token::TokenKind::EqualEqual => match (l, r) {
            (ValueV::Int(a), ValueV::Int(b)) => Ok(ValueV::Bool(a == b)),
            (ValueV::Str(a), ValueV::Str(b)) => Ok(ValueV::Bool(a == b)),
            (ValueV::Bool(a), ValueV::Bool(b)) => Ok(ValueV::Bool(a == b)),
            _ => Err(UnwindV::Error(ErrorV::TypeError)),
        },
        crate::token::TokenKind::DotDot => match (l, r) {
            (ValueV::Int(a), ValueV::Int(b)) => Ok(ValueV::Range(a, b)),
            _ => Err(UnwindV::Error(ErrorV::TypeError)),
        },
        _ => Err(UnwindV::Error(ErrorV::TypeError)),
    }
}

/// What the `assert` builtin yields for its two arguments.
pub open spec fn assert_native(cond: ValueV, msg: ValueV) -> ResultV {
    match (cond, msg) {
        (ValueV::Bool(c), ValueV::Str(m)) => if c {
            Ok(ValueV::Unit)
        } else {
            Err(UnwindV::Error(ErrorV::AssertionError(m)))
        },
        _ => Err(UnwindV::Error(ErrorV::TypeError)),
    }
}

/// Variable lookup: a resolved reference jumps by its recorded distance in
/// the active chain; an unresolved one must be found in the global scope.
pub open spec fn lookup_variable(st: StateV, tok: Token) -> ResultV {
    match locals_get(st.locals, tok.id as int) {
        Some(d) => match env_get_at(st.env, st.current, d as nat, tok.lexeme@) {
            Some(v) => Ok(v),
            None => Err(UnwindV::Error(ErrorV::UndefinedVariable(tok.lexeme@))),
        },
        None => match chain_get(st.env, st.globals, tok.lexeme@) {
            Some(v) => Ok(v),
            None => Err(UnwindV::Error(ErrorV::UndefinedVariable(tok.lexeme@))),
        },
    }
}

/// The first method in `methods` (from entry `i` on) that is a function
/// declaration named `name`: its arena index.
pub open spec fn find_method_from(
    nodes: Seq<Node>,
    methods: Seq<usize>,
    i: int,
    name: Seq<char>,
) -> Option<int>
    decreases methods.len() - i,
{
    if !(0 <= i < methods.len()) {
        None
    } else if methods[i] < nodes.len() && match nodes[methods[i] as int] {
        Node::Stmt(Stmt::Fn { name: tok, .. }) => tok.lexeme@ == name,
        _ => false,
    } {
        Some(methods[i] as int)
    } else {
        find_method_from(nodes, methods, i + 1, name)
    }
}

/// The number of parameters of the function declared at node `f`, or zero
/// when `f` is not a function declaration.
pub open spec fn fn_params_len(nodes: Seq<Node>, f: int) -> int {
    if 0 <= f < nodes.len() {
        match nodes[f] {
            Node::Stmt(Stmt::Fn { params, .. }) => params@.len() as int,
            _ => 0,
        }
    } else {
        0
    }
}

/// The arena after the parameters from index `i` on are bound to the
/// matching arguments in scope `scope`.
pub open spec fn bind_params(
    env: EnvV,
    scope: int,
    params: Seq<Token>,
    args: Seq<ValueV>,
    i: int,
) -> EnvV
    decreases params.len() - i,
{
    if !(0 <= i < params.len() && i < args.len()) {
        env
    } else {
        bind_params(env_define(env, scope, params[i].lexeme@, args[i]), scope, params, args, i + 1)
    }
}

/// Evaluate the expression at node `e`.
pub open spec fn eval_expr_spec(nodes: Seq<Node>, st: StateV, e: int, fuel: nat) -> StepV
    decreases fuel,
{
    if fuel == 0 {
        (st, Err(UnwindV::Error(ErrorV::RecursionLimit)))
    } else if !(0 <= e < nodes.len()) {
        (st, Err(UnwindV::Error(ErrorV::TypeError)))
    } else {
        match nodes[e] {
            Node::Stmt(_) => (st, Err(UnwindV::Error(ErrorV::TypeError))),
            Node::Expr(ex) => match ex {
                Expr::Literal(l) => (st, Ok(lit_value(l))),
                Expr::Unary { operator, right } => {
                    let (st1, r) = eval_expr_spec(nodes, st, right as int, (fuel - 1) as nat);
                    match r {
                        Ok(v) => (st1, unary_value(operator.kind, v)),
                        Err(u) => (st1, Err(u)),
                    }
                },
                Expr::Binary { left, operator, right } => {
                    let (st1, rl) = eval_expr_spec(nodes, st, left as int, (fuel - 1) as nat);
                    match rl {
                        Ok(vl) => {
                            let (st2, rr) = eval_expr_spec(
                                nodes,
                                st1,
                                right as int,
                                (fuel - 1) as nat,
                            );
                            match rr {
                                Ok(vr) => (st2, binary_value(operator.kind, vl, vr)),
                                Err(u) => (st2, Err(u)),
                            }
                        },
                        Err(u) => (st1, Err(u)),
                    }
                },
                Expr::Logical { left, operator, right } => {
                    let (st1, rl) = eval_expr_spec(nodes, st, left as int, (fuel - 1) as nat);
                    match rl {
                        Ok(vl) => match truthy(vl) {
                            Some(t) => {
                                if operator.kind == crate::token::TokenKind::And {
                                    if !t {
                                        (st1, Ok(vl))
                                    } else {
                                        eval_expr_spec(nodes, st1, right as int, (fuel - 1) as nat)
                                    }
                                } else if operator.kind == crate::token::TokenKind::Or {
                                    if t {
                                        (st1, Ok(vl))
                                    } else {
                                        eval_expr_spec(nodes, st1, right as int, (fuel - 1) as nat)
                                    }
                                } else {
                                    (st1, Err(UnwindV::Error(ErrorV::TypeError)))
                                }
                            },
                            None => (st1, Err(UnwindV::Error(ErrorV::TypeError))),
                        },
                        Err(u) => (st1, Err(u)),
                    }
                },
                Expr::Group(inner) => eval_expr_spec(nodes, st, inner as int, (fuel - 1) as nat),
                Expr::Variable(tok) => (st, lookup_variable(st, tok)),
                Expr::Assignment { name, value } => {
                    let (st1, rv) = eval_expr_spec(nodes, st, value as int, (fuel - 1) as nat);
                    match rv {
                        Ok(v) => match locals_get(st1.locals, name.id as int) {
                            Some(d) => {
                                let (env2, ar) = env_assign_at(
                                    st1.env,
                                    st1.current,
                                    d as nat,
                                    name.lexeme@,
                                    v,
                                );
                                match ar {
                                    Ok(_) => (st1.with_env(env2), Ok(v)),
                                    Err(er) => (st1.with_env(env2), Err(UnwindV::Error(er))),
                                }
                            },
                            None => {
                                let (env2, ar) = chain_assign(st1.env, st1.globals, name.lexeme@, v);
                                match ar {
                                    Ok(_) => (st1.with_env(env2), Ok(v)),
                                    Err(er) => (st1.with_env(env2), Err(UnwindV::Error(er))),
                                }
                            },
                        },
                        Err(u) => (st1, Err(u)),
                    }
                },
                Expr::Block { stmts, return_expr } => {
                    let child = st.env.len() as int;
                    let st1 = st.push_scope(st.current).with_current(child);
                    let (st2, rs) = exec_stmts_spec(nodes, st1, stmts@, 0, (fuel - 1) as nat);
                    match rs {
                        Err(u) => (st2.with_current(st.current), Err(u)),
                        Ok(_) => match return_expr {
                            Some(re) => {
                                let (st3, rv) = eval_expr_spec(
                                    nodes,
                                    st2,
                                    re as int,
                                    (fuel - 1) as nat,
                                );
                                (st3.with_current(st.current), rv)
                            },
                            None => (st2.with_current(st.current), Ok(ValueV::Unit)),
                        },
                    }
                },
                Expr::If { condition, then_branch, else_branch } => {
                    let (st1, rc) = eval_expr_spec(nodes, st, condition as int, (fuel - 1) as nat);
                    match rc {
                        Ok(vc) => match truthy(vc) {
                            Some(t) => if t {
                                eval_expr_spec(nodes, st1, then_branch as int, (fuel - 1) as nat)
                            } else {
                                match else_branch {
                                    Some(eb) => eval_expr_spec(
                                        nodes,
                                        st1,
                                        eb as int,
                                        (fuel - 1) as nat,
                                    ),
                                    None => (st1, Ok(ValueV::Unit)),
                                }
                            },
                            None => (st1, Err(UnwindV::Error(ErrorV::TypeError))),
                        },
                        Err(u) => (st1, Err(u)),
                    }
                },
                Expr::While { condition, body } => {
                    let (st1, rc) = eval_expr_spec(nodes, st, condition as int, (fuel - 1) as nat);
                    match rc {
                        Ok(vc) => match truthy(vc) {
                            Some(t) => if !t {
                                (st1, Ok(ValueV::Unit))
                            } else {
                                let (st2, rb) = eval_expr_spec(
                                    nodes,
                                    st1,
                                    body as int,
                                    (fuel - 1) as nat,
                                );
                                match rb {
                                    Ok(_) => eval_expr_spec(nodes, st2, e, (fuel - 1) as nat),
                                    Err(u) => (st2, Err(u)),
                                }
                            },
                            None => (st1, Err(UnwindV::Error(ErrorV::TypeError))),
                        },
                        Err(u) => (st1, Err(u)),
                    }
                },
                Expr::For { variable, iterable, body } => {
                    if !(0 <= variable < nodes.len()) {
                        (st, Err(UnwindV::Error(ErrorV::TypeError)))
                    } else {
                        match nodes[variable as int] {
                            Node::Expr(Expr::Variable(tok)) => {
                                let (st1, ri) = eval_expr_spec(
                                    nodes,
                                    st,
                                    iterable as int,
                                    (fuel - 1) as nat,
                                );
                                match ri {
                                    Ok(ValueV::Range(lo, hi)) => {
                                        let child = st1.env.len() as int;
                                        let st2 = st1.push_scope(st1.current).with_current(child);
                                        let st3 = st2.with_env(
                                            env_define(
                                                st2.env,
                                                child,
                                                tok.lexeme@,
                                                ValueV::Int(lo),
                                            ),
                                        );
                                        let (st4, rf) = for_loop_spec(
                                            nodes,
                                            st3,
                                            tok.lexeme@,
                                            lo,
                                            hi,
                                            body as int,
                                            (fuel - 1) as nat,
                                        );
                                        (st4.with_current(st1.current), rf)
                                    },
                                    Ok(_) => (st1, Err(UnwindV::Error(ErrorV::TypeError))),
                                    Err(u) => (st1, Err(u)),
                                }
                            },
                            _ => (st, Err(UnwindV::Error(ErrorV::TypeError))),
                        }
                    }
                },
                Expr::Call { callee, args, .. } => {
                    let (st1, ra) = eval_args_spec(nodes, st, args@, 0, (fuel - 1) as nat);
                    match ra {
                        Ok(vals) => {
                            let (st2, rc) = eval_expr_spec(
                                nodes,
                                st1,
                                callee as int,
                                (fuel - 1) as nat,
                            );
                            match rc {
                                Ok(f) => call_value_spec(nodes, st2, f, vals, (fuel - 1) as nat),
                                Err(u) => (st2, Err(u)),
                            }
                        },
                        Err(u) => (st1, Err(u)),
                    }
                },
                Expr::FieldAccess { object, name } => {
                    let (st1, ro) = eval_expr_spec(nodes, st, object as int, (fuel - 1) as nat);
                    match ro {
                        Ok(ValueV::Instance(inst)) => instance_get_spec(
                            nodes,
                            st1,
                            inst,
                            name.lexeme@,
                        ),
                        Ok(_) => (st1, Err(UnwindV::Error(ErrorV::TypeError))),
                        Err(u) => (st1, Err(u)),
                    }
                },
                Expr::FieldSet { object, name, value } => {
                    let (st1, ro) = eval_expr_spec(nodes, st, object as int, (fuel - 1) as nat);
                    match ro {
                        Ok(ValueV::Instance(inst)) => {
                            let (st2, rv) = eval_expr_spec(
                                nodes,
                                st1,
                                value as int,
                                (fuel - 1) as nat,
                            );
                            match rv {
                                Ok(v) => if 0 <= inst < st2.instances.len() {
                                    let old_inst = st2.instances[inst];
                                    let st3 = StateV {
                                        instances: st2.instances.update(
                                            inst,
                                            InstanceV {
                                                fields: scope_set(old_inst.fields, name.lexeme@, v),
                                                ..old_inst
                                            },
                                        ),
                                        ..st2
                                    };
                                    (st3, Ok(v))
                                } else {
                                    (st2, Err(UnwindV::Error(ErrorV::TypeError)))
                                },
                                Err(u) => (st2, Err(u)),
                            }
                        },
                        Ok(_) => (st1, Err(UnwindV::Error(ErrorV::TypeError))),
                        Err(u) => (st1, Err(u)),
                    }
                },
                Expr::Return { value, .. } => match value {
                    Some(v) => {
                        let (st1, rv) = eval_expr_spec(nodes, st, v as int, (fuel - 1) as nat);
                        match rv {
                            Ok(val) => (st1, Err(UnwindV::Return(val))),
                            Err(u) => (st1, Err(u)),
                        }
                    },
                    None => (st, Err(UnwindV::Return(ValueV::Unit))),
                },
            },
        }
    }
}

/// Reading a field of instance `inst`: a stored field first; otherwise a
/// method of that name on the class, bound to the instance on the fly by
/// allocating a scope that defines `this`.
pub open spec fn instance_get_spec(
    nodes: Seq<Node>,
    st: StateV,
    inst: int,
    name: Seq<char>,
) -> StepV {
    if !(0 <= inst < st.instances.len()) {
        (st, Err(UnwindV::Error(ErrorV::TypeError)))
    } else {
        let rec = st.instances[inst];
        match scope_get(rec.fields, name) {
            Some(v) => (st, Ok(v)),
            None => {
                if 0 <= rec.class_decl < nodes.len() {
                    match nodes[rec.class_decl] {
                        Node::Stmt(Stmt::Class { methods, .. }) => {
                            match find_method_from(nodes, methods@, 0, name) {
                                Some(m) => {
                                    if 0 <= rec.class_env < st.env.len() {
                                        let bind_scope = st.env.len() as int;
                                        let st1 = st.push_scope(rec.class_env);
                                        let st2 = st1.with_env(
                                            env_define(
                                                st1.env,
                                                bind_scope,
                                                "this"@,
                                                ValueV::Instance(inst),
                                            ),
                                        );
                                        (
                                            st2,
                                            Ok(
                                                ValueV::Function {
                                                    decl: m,
                                                    env: bind_scope,
                                                },
                                            ),
                                        )
                                    } else {
                                        (st, Err(UnwindV::Error(ErrorV::TypeError)))
                                    }
                                },
                                None => (st, Err(UnwindV::Error(ErrorV::UndefinedVariable(name)))),
                            }
                        },
                        _ => (st, Err(UnwindV::Error(ErrorV::TypeError))),
                    }
                } else {
                    (st, Err(UnwindV::Error(ErrorV::TypeError)))
                }
            },
        }
    }
}

/// One run of a `for` loop from induction value `i` (exclusive upper bound
/// `hi`): re-assign the loop variable in place, run the body, repeat.
pub open spec fn for_loop_spec(
    nodes: Seq<Node>,
    st: StateV,
    name: Seq<char>,
    i: int,
    hi: int,
    body: int,
    fuel: nat,
) -> StepV
    decreases fuel,
{
    if fuel == 0 {
        (st, Err(UnwindV::Error(ErrorV::RecursionLimit)))
    } else if i >= hi {
        (st, Ok(ValueV::Unit))
    } else {
        let (env2, ar) = chain_assign(st.env, st.current, name, ValueV::Int(i));
        let st1 = st.with_env(env2);
        match ar {
            Err(er) => (st1, Err(UnwindV::Error(er))),
            Ok(_) => {
                let (st2, rb) = eval_expr_spec(nodes, st1, body, (fuel - 1) as nat);
                match rb {
                    Err(u) => (st2, Err(u)),
                    Ok(_) => for_loop_spec(nodes, st2, name, i + 1, hi, body, (fuel - 1) as nat),
                }
            },
        }
    }
}

/// Evaluate the argument expressions from index `i` on, left to right.
pub open spec fn eval_args_spec(
    nodes: Seq<Node>,
    st: StateV,
    args: Seq<usize>,
    i: int,
    fuel: nat,
) -> (StateV, Result<Seq<ValueV>, UnwindV>)
    decreases fuel,
{
    if fuel == 0 {
        (st, Err(UnwindV::Error(ErrorV::RecursionLimit)))
    } else if !(0 <= i < args.len()) {
        (st, Ok(Seq::empty()))
    } else {
        let (st1, r) = eval_expr_spec(nodes, st, args[i] as int, (fuel - 1) as nat);
        match r {
            Ok(v) => {
                let (st2, rest) = eval_args_spec(nodes, st1, args, i + 1, (fuel - 1) as nat);
                match rest {
                    Ok(vs) => (st2, Ok(seq![v] + vs)),
                    Err(u) => (st2, Err(u)),
                }
            },
            Err(u) => (st1, Err(u)),
        }
    }
}

/// Call a callee value on already-evaluated arguments.  Only functions,
/// the native builtins and classes are callable; arities are checked
/// exactly.
pub open spec fn call_value_spec(
    nodes: Seq<Node>,
    st: StateV,
    callee: ValueV,
    args: Seq<ValueV>,
    fuel: nat,
) -> StepV
    decreases fuel,
{
    if fuel == 0 {
        (st, Err(UnwindV::Error(ErrorV::RecursionLimit)))
    } else {
        match callee {
            ValueV::Function { decl, env } => closure_call_spec(
                nodes,
                st,
                decl,
                env,
                args,
                (fuel - 1) as nat,
            ),
            ValueV::Native(NativeFn::Time) => if args.len() != 0 {
                (st, Err(UnwindV::Error(ErrorV::TypeError)))
            } else {
                (st, Ok(ValueV::Int(st.time)))
            },
            ValueV::Native(NativeFn::Assert) => if args.len() != 2 {
                (st, Err(UnwindV::Error(ErrorV::TypeError)))
            } else {
                (st, assert_native(args[0], args[1]))
            },
            ValueV::Class { decl, env } => class_call_spec(
                nodes,
                st,
                decl,
                env,
                args,
                (fuel - 1) as nat,
            ),
            _ => (st, Err(UnwindV::Error(ErrorV::TypeError))),
        }
    }
}

/// Call the closure declared at node `decl` with captured scope `env`:
/// run its body in a fresh child of the captured scope with the parameters
/// bound, translate a return-unwind into a normal result, and restore the
/// active scope afterwards whatever the outcome.
pub open spec fn closure_call_spec(
    nodes: Seq<Node>,
    st: StateV,
    decl: int,
    env: int,
    args: Seq<ValueV>,
    fuel: nat,
) -> StepV
    decreases fuel,
{
    if fuel == 0 {
        (st, Err(UnwindV::Error(ErrorV::RecursionLimit)))
    } else if !(0 <= decl < nodes.len()) {
        (st, Err(UnwindV::Error(ErrorV::TypeError)))
    } else {
        match nodes[decl] {
            Node::Stmt(Stmt::Fn { params, body, .. }) => {
                if params@.len() != args.len() {
                    (st, Err(UnwindV::Error(ErrorV::TypeError)))
                } else if !(0 <= env < st.env.len()) {
                    (st, Err(UnwindV::Error(ErrorV::TypeError)))
                } else {
                    let child = st.env.len() as int;
                    let st1 = st.push_scope(env);
                    let st2 = st1.with_env(bind_params(st1.env, child, params@, args, 0))
                        .with_current(child);
                    let (st3, r) = eval_expr_spec(nodes, st2, body as int, (fuel - 1) as nat);
                    let st4 = st3.with_current(st.current);
                    match r {
                        Ok(v) => (st4, Ok(v)),
                        Err(UnwindV::Return(v)) => (st4, Ok(v)),
                        Err(UnwindV::Error(er)) => (st4, Err(UnwindV::Error(er))),
                    }
                }
            },
            _ => (st, Err(UnwindV::Error(ErrorV::TypeError))),
        }
    }
}

/// Call a class: allocate a fresh instance and, when the class declares an
/// `init` method, bind it to the new instance and run it on the arguments.
/// The class's arity is `init`'s arity when present, else zero.
pub open spec fn class_call_spec(
    nodes: Seq<Node>,
    st: StateV,
    decl: int,
    env: int,
    args: Seq<ValueV>,
    fuel: nat,
) -> StepV
    decreases fuel,
{
    if fuel == 0 {
        (st, Err(UnwindV::Error(ErrorV::RecursionLimit)))
    } else if !(0 <= decl < nodes.len()) {
        (st, Err(UnwindV::Error(ErrorV::TypeError)))
    } else {
        match nodes[decl] {
            Node::Stmt(Stmt::Class { methods, .. }) => {
                let init = find_method_from(nodes, methods@, 0, "init"@);
                let arity = match init {
                    Some(m) => fn_params_len(nodes, m),
                    None => 0,
                };
                if args.len() != arity {
                    (st, Err(UnwindV::Error(ErrorV::TypeError)))
                } else if !(0 <= env < st.env.len()) {
                    (st, Err(UnwindV::Error(ErrorV::TypeError)))
                } else {
                    let inst = st.instances.len() as int;
                    let st1 = st.push_instance(
                        InstanceV { class_decl: decl, class_env: env, fields: Seq::empty() },
                    );
                    match init {
                        None => (st1, Ok(ValueV::Instance(inst))),
                        Some(m) => {
                            let bind_scope = st1.env.len() as int;
                            let st2 = st1.push_scope(env);
                            let st3 = st2.with_env(
                                env_define(st2.env, bind_scope, "this"@, ValueV::Instance(inst)),
                            );
                            let (st4, r) = closure_call_spec(
                                nodes,
                                st3,
                                m,
                                bind_scope,
                                args,
                                (fuel - 1) as nat,
                            );
                            match r {
                                Ok(_) => (st4, Ok(ValueV::Instance(inst))),
                                Err(u) => (st4, Err(u)),
                            }
                        },
                    }
                }
            },
            _ => (st, Err(UnwindV::Error(ErrorV::TypeError))),
        }
    }
}

/// Execute the statement at node `s`.
pub open spec fn exec_stmt_spec(nodes: Seq<Node>, st: StateV, s: int, fuel: nat) -> StmtStepV
    decreases fuel,
{
    if fuel == 0 {
        (st, Err(UnwindV::Error(ErrorV::RecursionLimit)))
    } else if !(0 <= s < nodes.len()) {
        (st, Err(UnwindV::Error(ErrorV::TypeError)))
    } else {
        match nodes[s] {
            Node::Expr(_) => (st, Err(UnwindV::Error(ErrorV::TypeError))),
            Node::Stmt(stm) => match stm {
                Stmt::Print(e) => {
                    let (st1, r) = eval_expr_spec(nodes, st, e as int, (fuel - 1) as nat);
                    match r {
                        Ok(v) => (st1.push_output(display_of(v)), Ok(())),
                        Err(u) => (st1, Err(u)),
                    }
                },
                Stmt::Expr { expr, .. } => {
                    let (st1, r) = eval_expr_spec(nodes, st, expr as int, (fuel - 1) as nat);
                    match r {
                        Ok(_) => (st1, Ok(())),
                        Err(u) => (st1, Err(u)),
                    }
                },
                Stmt::Var { name, initializer } => match initializer {
                    Some(init) => {
                        let (st1, r) = eval_expr_spec(nodes, st, init as int, (fuel - 1) as nat);
                        match r {
                            Ok(v) => (
                                st1.with_env(
                                    env_define(st1.env, st1.current, name.lexeme@, v),
                                ),
                                Ok(()),
                            ),
                            Err(u) => (st1, Err(u)),
                        }
                    },
                    None => (
                        st.with_env(
                            env_define(st.env, st.current, name.lexeme@, ValueV::Unit),
                        ),
                        Ok(()),
                    ),
                },
                Stmt::Fn { name, .. } => (
                    st.with_env(
                        env_define(
                            st.env,
                            st.current,
                            name.lexeme@,
                            ValueV::Function { decl: s, env: st.current },
                        ),
                    ),
                    Ok(()),
                ),
                Stmt::Class { name, .. } => {
                    let st1 = st.with_env(
                        env_define(st.env, st.current, name.lexeme@, ValueV::Unit),
                    );
                    let (env2, ar) = chain_assign(
                        st1.env,
                        st1.current,
                        name.lexeme@,
                        ValueV::Class { decl: s, env: st1.current },
                    );
                    let st2 = st1.with_env(env2);
                    match ar {
                        Ok(_) => (st2, Ok(())),
                        Err(er) => (st2, Err(UnwindV::Error(er))),
                    }
                },
            },
        }
    }
}

/// Execute the statements in `stmts` from index `i` on, in order, stopping
/// at the first unwind.
pub open spec fn exec_stmts_spec(
    nodes: Seq<Node>,
    st: StateV,
    stmts: Seq<usize>,
    i: int,
    fuel: nat,
) -> StmtStepV
    decreases fuel,
{
    if fuel == 0 {
        (st, Err(UnwindV::Error(ErrorV::RecursionLimit)))
    } else if !(0 <= i < stmts.len()) {
        (st, Ok(()))
    } else {
        let (st1, r) = exec_stmt_spec(nodes, st, stmts[i] as int, (fuel - 1) as nat);
        match r {
            Ok(_) => exec_stmts_spec(nodes, st1, stmts, i + 1, (fuel - 1) as nat),
            Err(u) => (st1, Err(u)),
        }
    }
}

} // verus!
