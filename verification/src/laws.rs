//! General properties of the language, stated and proved against the
//! evaluation semantics.

use vstd::prelude::*;

use crate::ast::{Expr, Node};
use crate::environment::{chain_assign, chain_get, env_define, scope_get, scope_set, BindingsV, EnvV};
use crate::semantics::{
    binary_value, div_trunc, eval_expr_spec, exec_stmts_spec, int_in_i64, StateV,
};
use crate::token::TokenKind;
use crate::value::{UnwindV, ValueV};

verus! {

/// For integer operands, `+`, `-` and `*` yield the mathematically exact
/// integer result whenever that result is representable, and `/` (with a
/// nonzero divisor) yields the exact truncated quotient.
pub proof fn lemma_integer_arithmetic_exact(a: int, b: int)
    requires
        int_in_i64(a),
        int_in_i64(b),
    ensures
        int_in_i64(a + b) ==> binary_value(TokenKind::Plus, ValueV::Int(a), ValueV::Int(b))
            == Ok::<ValueV, UnwindV>(ValueV::Int(a + b)),
        int_in_i64(a - b) ==> binary_value(TokenKind::Minus, ValueV::Int(a), ValueV::Int(b))
            == Ok::<ValueV, UnwindV>(ValueV::Int(a - b)),
        int_in_i64(a * b) ==> binary_value(TokenKind::Star, ValueV::Int(a), ValueV::Int(b))
            == Ok::<ValueV, UnwindV>(ValueV::Int(a * b)),
        b != 0 && int_in_i64(div_trunc(a, b)) ==> binary_value(
            TokenKind::Slash,
            ValueV::Int(a),
            ValueV::Int(b),
        ) == Ok::<ValueV, UnwindV>(ValueV::Int(div_trunc(a, b))),
{
    if int_in_i64(a * b) {
        assert(vstd::wrapping::i64_specs::signed_crop(a * b) == a * b) by {
            let range = 0x1_0000_0000_0000_0000int;
            if a * b >= 0 {
                assert((a * b) % range == a * b);
            } else {
                assert((a * b) % range == a * b + range);
            }
        }
    }
    if b != 0 && int_in_i64(div_trunc(a, b)) {
        if a == i64::MIN && b == -1 {
            assert(div_trunc(a, b) == -(i64::MIN as int));
            assert(false);
        } else {
            assert(crate::semantics::wrap_div_v(a, b) == div_trunc(a, b));
        }
    }
}

/// A dynamic assignment that fails — because the name is bound nowhere in
/// the chain, or because the new value's tag differs from the binding's —
/// leaves the scope arena exactly as it was: a failing assignment does not
/// mutate the binding.
pub proof fn lemma_assign_failure_preserves_env(env: EnvV, s: int, name: Seq<char>, v: ValueV)
    ensures
        ({
            let (env2, r) = chain_assign(env, s, name, v);
            r is Err ==> env2 == env
        }),
    decreases s,
{
    if 0 <= s < env.len() {
        match crate::environment::scope_get(env[s].values, name) {
            Some(_) => {},
            None => {
                match env[s].enclosing {
                    Some(p) => {
                        if 0 <= p < s {
                            lemma_assign_failure_preserves_env(env, p, name, v);
                        }
                    },
                    None => {},
                }
            },
        }
    }
}

/// Declaration shadows, it does not overwrite: binding a name in one scope
/// leaves every other scope — in particular an outer scope holding the same
/// name — exactly as it was.
pub proof fn lemma_define_shadows_locally(env: EnvV, s: int, name: Seq<char>, v: ValueV, j: int)
    requires
        0 <= j < env.len(),
        j != s,
    ensures
        env_define(env, s, name, v)[j] == env[j],
{
}

/// Binding a name in a scope makes it what every later lookup of that name
/// through the same scope sees: environments are shared, so a mutation by
/// one holder of a scope index (a closure, the interpreter) is visible to
/// every other holder.
pub proof fn lemma_define_then_get(env: EnvV, s: int, name: Seq<char>, v: ValueV)
    requires
        0 <= s < env.len(),
    ensures
        chain_get(env_define(env, s, name, v), s, name) == Some(v),
{
    lemma_scope_set_then_get(env[s].values, name, v);
}

/// Setting a name in a binding list makes it what a lookup finds.
proof fn lemma_scope_set_then_get(vals: BindingsV, name: Seq<char>, v: ValueV)
    ensures
        scope_get(scope_set(vals, name, v), name) == Some(v),
    decreases vals.len(),
{
    if vals.len() > 0 && vals[0].0 != name {
        lemma_scope_set_then_get(vals.drop_first(), name, v);
        assert((seq![vals[0]] + scope_set(vals.drop_first(), name, v)).drop_first()
            =~= scope_set(vals.drop_first(), name, v));
    }
}

/// A block's value: when its statements all complete, a block with no
/// trailing expression yields unit, and one with a trailing expression
/// yields exactly that expression's value, evaluated in the block's own
/// scope; either way the enclosing scope is restored afterwards.
pub proof fn lemma_block_value(nodes: Seq<Node>, st: StateV, e: int, fuel: nat)
    requires
        fuel > 0,
        0 <= e < nodes.len(),
    ensures
        ({
            match nodes[e] {
                Node::Expr(Expr::Block { stmts, return_expr }) => {
                    let child = st.env.len() as int;
                    let st1 = st.push_scope(st.current).with_current(child);
                    let (st2, rs) = exec_stmts_spec(nodes, st1, stmts@, 0, (fuel - 1) as nat);
                    rs is Ok ==> match return_expr {
                        None => eval_expr_spec(nodes, st, e, fuel) == (
                            st2.with_current(st.current),
                            Ok::<ValueV, UnwindV>(ValueV::Unit),
                        ),
                        Some(re) => {
                            let (st3, rv) = eval_expr_spec(nodes, st2, re as int, (fuel - 1) as nat);
                            eval_expr_spec(nodes, st, e, fuel) == (st3.with_current(st.current), rv)
                        },
                    }
                },
                _ => true,
            }
        }),
{
}

} // verus!
