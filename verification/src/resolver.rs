//! The static scope resolver: a single pass over the tree that computes,
//! for every variable reference that is found in an enclosing lexical
//! scope, the number of scope hops between the reference and its
//! declaration.  The interpreter then jumps by that distance instead of
//! searching by name.  The pass also rejects a variable that is read inside
//! its own initializer.
//!
//! The pass is specified exactly: `resolve_stmts_spec` says what the scope
//! stack and the resolution map are after every step, and the executable
//! pass is proved to match.

use vstd::prelude::*;

use crate::ast::{node_wf, wf_nodes, Expr, Node, Program, Stmt};
use crate::token::Token;

verus! {

/// A resolution error: the program is rejected before execution.
#[derive(Debug)]
pub enum ResolveError {
    /// A variable's initializer reads the variable being declared.
    SelfReference(String),
}

/// The specification-level image of a resolution error.
pub enum ResolveErrV {
    SelfReference(Seq<char>),
}

impl View for ResolveError {
    type V = ResolveErrV;

    open spec fn view(&self) -> ResolveErrV {
        match self {
            ResolveError::SelfReference(n) => ResolveErrV::SelfReference(n@),
        }
    }
}

/// One scope of the resolver, at the specification level: a name is mapped
/// to `false` between declaration and definition, `true` once defined.
pub type RScopeV = Seq<(Seq<char>, bool)>;

/// The specification-level image of the resolver.
#[verifier::ext_equal]
pub struct ResolverV {
    /// The stack of open scopes, outermost first.
    pub scopes: Seq<RScopeV>,
    /// The resolution map: (token id, lexical distance) pairs.
    pub resolutions: Seq<(int, int)>,
}

/// The mark recorded for `name` in one resolver scope.
pub open spec fn rs_get(vals: RScopeV, name: Seq<char>) -> Option<bool>
    decreases vals.len(),
{
    if vals.len() == 0 {
        None
    } else if vals[0].0 == name {
        Some(vals[0].1)
    } else {
        rs_get(vals.drop_first(), name)
    }
}

/// One resolver scope after `name` is marked `b`.
pub open spec fn rs_set(vals: RScopeV, name: Seq<char>, b: bool) -> RScopeV
    decreases vals.len(),
{
    if vals.len() == 0 {
        seq![(name, b)]
    } else if vals[0].0 == name {
        seq![(name, b)] + vals.drop_first()
    } else {
        seq![vals[0]] + rs_set(vals.drop_first(), name, b)
    }
}

/// Skipping pairs whose names differ does not change a lookup.
pub proof fn lemma_rs_get_skip(vals: RScopeV, name: Seq<char>, i: int)
    requires
        0 <= i <= vals.len(),
        forall|j: int| 0 <= j < i ==> (#[trigger] vals[j]).0 != name,
    ensures
        rs_get(vals, name) == rs_get(vals.skip(i), name),
    decreases i,
{
    if i > 0 {
        lemma_rs_get_skip(vals.drop_first(), name, i - 1);
        assert(vals.drop_first().skip(i - 1) =~= vals.skip(i));
    } else {
        assert(vals.skip(0) =~= vals);
    }
}

/// When the first match is at index `i`, marking is an in-place update.
pub proof fn lemma_rs_set_update(vals: RScopeV, name: Seq<char>, b: bool, i: int)
    requires
        0 <= i < vals.len(),
        forall|j: int| 0 <= j < i ==> (#[trigger] vals[j]).0 != name,
        vals[i].0 == name,
    ensures
        rs_set(vals, name, b) =~= vals.update(i, (name, b)),
    decreases i,
{
    if i == 0 {
        assert(seq![(name, b)] + vals.drop_first() =~= vals.update(0, (name, b)));
    } else {
        lemma_rs_set_update(vals.drop_first(), name, b, i - 1);
        assert(seq![vals[0]] + vals.drop_first().update(i - 1, (name, b)) =~= vals.update(
            i,
            (name, b),
        ));
    }
}

/// When no pair matches, marking appends.
pub proof fn lemma_rs_set_push(vals: RScopeV, name: Seq<char>, b: bool)
    requires
        forall|j: int| 0 <= j < vals.len() ==> (#[trigger] vals[j]).0 != name,
    ensures
        rs_set(vals, name, b) =~= vals.push((name, b)),
    decreases vals.len(),
{
    if vals.len() > 0 {
        lemma_rs_set_push(vals.drop_first(), name, b);
        assert(seq![vals[0]] + vals.drop_first().push((name, b)) =~= vals.push((name, b)));
    }
}

impl ResolverV {
    /// Open a scope.
    pub open spec fn begin(self) -> ResolverV {
        ResolverV { scopes: self.scopes.push(Seq::empty()), ..self }
    }

    /// Close the innermost scope.
    pub open spec fn end(self) -> ResolverV {
        if self.scopes.len() > 0 {
            ResolverV { scopes: self.scopes.drop_last(), ..self }
        } else {
            self
        }
    }

    /// Mark `name` in the innermost scope; a no-op at global scope.
    pub open spec fn mark(self, name: Seq<char>, b: bool) -> ResolverV {
        if self.scopes.len() > 0 {
            ResolverV {
                scopes: self.scopes.update(
                    self.scopes.len() - 1,
                    rs_set(self.scopes.last(), name, b),
                ),
                ..self
            }
        } else {
            self
        }
    }

    /// The lexical distance at which `name` is found, walking from the
    /// innermost open scope (index `i`) outward.
    pub open spec fn distance_from(self, name: Seq<char>, i: int) -> Option<int>
        decreases i + 1,
    {
        if !(0 <= i < self.scopes.len()) {
            None
        } else if rs_get(self.scopes[i], name) is Some {
            Some(self.scopes.len() - 1 - i)
        } else {
            self.distance_from(name, i - 1)
        }
    }

    /// Record the distance for a reference, when the name is found in some
    /// open scope; global references are left for dynamic lookup.
    pub open spec fn resolve_local(self, tok: Token) -> ResolverV {
        match self.distance_from(tok.lexeme@, self.scopes.len() - 1) {
            Some(d) => ResolverV {
                resolutions: self.resolutions.push((tok.id as int, d)),
                ..self
            },
            None => self,
        }
    }

    /// The reference stands in its own initializer: the name is declared
    /// but not yet defined in the innermost scope.
    pub open spec fn is_self_reference(self, tok: Token) -> bool {
        self.scopes.len() > 0 && rs_get(self.scopes.last(), tok.lexeme@) == Some(false)
    }
}

/// Resolve the expression at node `e`.
pub open spec fn resolve_expr_spec(nodes: Seq<Node>, rv: ResolverV, e: int) -> Result<
    ResolverV,
    ResolveErrV,
>
    decreases e, 1int, 0int,
{
    if !(0 <= e < nodes.len()) {
        Ok(rv)
    } else {
        match nodes[e] {
            Node::Stmt(_) => Ok(rv),
            Node::Expr(ex) => match ex {
                Expr::Literal(_) => Ok(rv),
                Expr::Unary { right, .. } => if right < e {
                    resolve_expr_spec(nodes, rv, right as int)
                } else {
                    Ok(rv)
                },
                Expr::Binary { left, right, .. } => {
                    let r1 = if left < e {
                        resolve_expr_spec(nodes, rv, left as int)
                    } else {
                        Ok(rv)
                    };
                    match r1 {
                        Ok(rv1) => if right < e {
                            resolve_expr_spec(nodes, rv1, right as int)
                        } else {
                            Ok(rv1)
                        },
                        Err(er) => Err(er),
                    }
                },
                Expr::Logical { left, right, .. } => {
                    let r1 = if left < e {
                        resolve_expr_spec(nodes, rv, left as int)
                    } else {
                        Ok(rv)
                    };
                    match r1 {
                        Ok(rv1) => if right < e {
                            resolve_expr_spec(nodes, rv1, right as int)
                        } else {
                            Ok(rv1)
                        },
                        Err(er) => Err(er),
                    }
                },
                Expr::Group(inner) => if inner < e {
                    resolve_expr_spec(nodes, rv, inner as int)
                } else {
                    Ok(rv)
                },
                Expr::Variable(tok) => if rv.is_self_reference(tok) {
                    Err(ResolveErrV::SelfReference(tok.lexeme@))
                } else {
                    Ok(rv.resolve_local(tok))
                },
                Expr::Assignment { name, value } => {
                    let r1 = if value < e {
                        resolve_expr_spec(nodes, rv, value as int)
                    } else {
                        Ok(rv)
                    };
                    match r1 {
                        Ok(rv1) => Ok(rv1.resolve_local(name)),
                        Err(er) => Err(er),
                    }
                },
                Expr::Block { stmts, return_expr } => {
                    let r1 = resolve_stmts_spec(nodes, rv.begin(), stmts@, 0, e);
                    match r1 {
                        Ok(rv1) => {
                            let r2 = match return_expr {
                                Some(re) => if re < e {
                                    resolve_expr_spec(nodes, rv1, re as int)
                                } else {
                                    Ok(rv1)
                                },
                                None => Ok(rv1),
                            };
                            match r2 {
                                Ok(rv2) => Ok(rv2.end()),
                                Err(er) => Err(er),
                            }
                        },
                        Err(er) => Err(er),
                    }
                },
                Expr::If { condition, then_branch, else_branch } => {
                    let r1 = if condition < e {
                        resolve_expr_spec(nodes, rv, condition as int)
                    } else {
                        Ok(rv)
                    };
                    match r1 {
                        Ok(rv1) => {
                            let r2 = if then_branch < e {
                                resolve_expr_spec(nodes, rv1, then_branch as int)
                            } else {
                                Ok(rv1)
                            };
                            match r2 {
                                Ok(rv2) => match else_branch {
                                    Some(eb) => if eb < e {
                                        resolve_expr_spec(nodes, rv2, eb as int)
                                    } else {
                                        Ok(rv2)
                                    },
                                    None => Ok(rv2),
                                },
                                Err(er) => Err(er),
                            }
                        },
                        Err(er) => Err(er),
                    }
                },
                Expr::While { condition, body } => {
                    let r1 = if condition < e {
                        resolve_expr_spec(nodes, rv, condition as int)
                    } else {
                        Ok(rv)
                    };
                    match r1 {
                        Ok(rv1) => if body < e {
                            resolve_expr_spec(nodes, rv1, body as int)
                        } else {
                            Ok(rv1)
                        },
                        Err(er) => Err(er),
                    }
                },
                Expr::For { variable, iterable, body } => {
                    let r1 = if iterable < e {
                        resolve_expr_spec(nodes, rv, iterable as int)
                    } else {
                        Ok(rv)
                    };
                    match r1 {
                        Ok(rv1) => {
                            let rv2 = rv1.begin();
                            let rv3 = if variable < nodes.len() && variable < e {
                                match nodes[variable as int] {
                                    Node::Expr(Expr::Variable(tok)) => rv2.mark(
                                        tok.lexeme@,
                                        false,
                                    ).mark(tok.lexeme@, true),
                                    _ => rv2,
                                }
                            } else {
                                rv2
                            };
                            let r2 = if body < e {
                                resolve_expr_spec(nodes, rv3, body as int)
                            } else {
                                Ok(rv3)
                            };
                            match r2 {
                                Ok(rv4) => Ok(rv4.end()),
                                Err(er) => Err(er),
                            }
                        },
                        Err(er) => Err(er),
                    }
                },
                Expr::Call { callee, args, .. } => {
                    let r1 = if callee < e {
                        resolve_expr_spec(nodes, rv, callee as int)
                    } else {
                        Ok(rv)
                    };
                    match r1 {
                        Ok(rv1) => resolve_exprs_spec(nodes, rv1, args@, 0, e),
                        Err(er) => Err(er),
                    }
                },
                Expr::FieldAccess { object, .. } => if object < e {
                    resolve_expr_spec(nodes, rv, object as int)
                } else {
                    Ok(rv)
                },
                Expr::FieldSet { object, value, .. } => {
                    let r1 = if value < e {
                        resolve_expr_spec(nodes, rv, value as int)
                    } else {
                        Ok(rv)
                    };
                    match r1 {
                        Ok(rv1) => if object < e {
                            resolve_expr_spec(nodes, rv1, object as int)
                        } else {
                            Ok(rv1)
                        },
                        Err(er) => Err(er),
                    }
                },
                Expr::Return { value, .. } => match value {
                    Some(v) => if v < e {
                        resolve_expr_spec(nodes, rv, v as int)
                    } else {
                        Ok(rv)
                    },
                    None => Ok(rv),
                },
            },
        }
    }
}

/// Resolve a list of expression nodes (call arguments), in order.
pub open spec fn resolve_exprs_spec(
    nodes: Seq<Node>,
    rv: ResolverV,
    ids: Seq<usize>,
    i: int,
    bound: int,
) -> Result<ResolverV, ResolveErrV>
    decreases bound, 0int, ids.len() - i,
{
    if !(0 <= i < ids.len()) {
        Ok(rv)
    } else {
        let r1 = if ids[i] < bound {
            resolve_expr_spec(nodes, rv, ids[i] as int)
        } else {
            Ok(rv)
        };
        match r1 {
            Ok(rv1) => resolve_exprs_spec(nodes, rv1, ids, i + 1, bound),
            Err(er) => Err(er),
        }
    }
}

/// Mark every parameter declared and defined in the innermost scope.
pub open spec fn declare_params_spec(rv: ResolverV, params: Seq<Token>, i: int) -> ResolverV
    decreases params.len() - i,
{
    if !(0 <= i < params.len()) {
        rv
    } else {
        declare_params_spec(
            rv.mark(params[i].lexeme@, false).mark(params[i].lexeme@, true),
            params,
            i + 1,
        )
    }
}

/// Resolve a function body: open a scope, declare and define every
/// parameter, resolve the body, close the scope.
pub open spec fn resolve_function_spec(
    nodes: Seq<Node>,
    rv: ResolverV,
    params: Seq<Token>,
    body: int,
) -> Result<ResolverV, ResolveErrV>
    decreases body, 2int, 0int,
{
    let rv1 = declare_params_spec(rv.begin(), params, 0);
    let r = if 0 <= body < nodes.len() {
        resolve_expr_spec(nodes, rv1, body)
    } else {
        Ok(rv1)
    };
    match r {
        Ok(rv2) => Ok(rv2.end()),
        Err(er) => Err(er),
    }
}

/// Resolve the statement at node `s`.
pub open spec fn resolve_stmt_spec(nodes: Seq<Node>, rv: ResolverV, s: int) -> Result<
    ResolverV,
    ResolveErrV,
>
    decreases s, 1int, 0int,
{
    if !(0 <= s < nodes.len()) {
        Ok(rv)
    } else {
        match nodes[s] {
            Node::Expr(_) => Ok(rv),
            Node::Stmt(stm) => match stm {
                Stmt::Print(e) => if e < s {
                    resolve_expr_spec(nodes, rv, e as int)
                } else {
                    Ok(rv)
                },
                Stmt::Expr { expr, .. } => if expr < s {
                    resolve_expr_spec(nodes, rv, expr as int)
                } else {
                    Ok(rv)
                },
                Stmt::Var { name, initializer } => {
                    let rv1 = rv.mark(name.lexeme@, false);
                    let r = match initializer {
                        Some(init) => if init < s {
                            resolve_expr_spec(nodes, rv1, init as int)
                        } else {
                            Ok(rv1)
                        },
                        None => Ok(rv1),
                    };
                    match r {
                        Ok(rv2) => Ok(rv2.mark(name.lexeme@, true)),
                        Err(er) => Err(er),
                    }
                },
                Stmt::Fn { name, params, body } => {
                    let rv1 = rv.mark(name.lexeme@, false).mark(name.lexeme@, true);
                    if body < s {
                        resolve_function_spec(nodes, rv1, params@, body as int)
                    } else {
                        Ok(rv1)
                    }
                },
                Stmt::Class { name, methods } => {
                    let rv1 = rv.mark(name.lexeme@, false).mark(name.lexeme@, true);
                    let rv2 = rv1.begin().mark("this"@, false).mark("this"@, true);
                    let r = resolve_methods_spec(nodes, rv2, methods@, 0, s);
                    match r {
                        Ok(rv3) => Ok(rv3.end()),
                        Err(er) => Err(er),
                    }
                },
            },
        }
    }
}

/// Resolve each method of a class, in order.
pub open spec fn resolve_methods_spec(
    nodes: Seq<Node>,
    rv: ResolverV,
    methods: Seq<usize>,
    i: int,
    bound: int,
) -> Result<ResolverV, ResolveErrV>
    decreases bound, 0int, methods.len() - i,
{
    if !(0 <= i < methods.len()) {
        Ok(rv)
    } else {
        let r1 = if methods[i] < bound && (methods[i] as int) < nodes.len() {
            match nodes[methods[i] as int] {
                Node::Stmt(Stmt::Fn { params, body, .. }) => if body < methods[i] {
                    resolve_function_spec(nodes, rv, params@, body as int)
                } else {
                    Ok(rv)
                },
                _ => Ok(rv),
            }
        } else {
            Ok(rv)
        };
        match r1 {
            Ok(rv1) => resolve_methods_spec(nodes, rv1, methods, i + 1, bound),
            Err(er) => Err(er),
        }
    }
}

/// Resolve a list of statement nodes, in order.
pub open spec fn resolve_stmts_spec(
    nodes: Seq<Node>,
    rv: ResolverV,
    ids: Seq<usize>,
    i: int,
    bound: int,
) -> Result<ResolverV, ResolveErrV>
    decreases bound, 0int, ids.len() - i,
{
    if !(0 <= i < ids.len()) {
        Ok(rv)
    } else {
        let r1 = if ids[i] < bound {
            resolve_stmt_spec(nodes, rv, ids[i] as int)
        } else {
            Ok(rv)
        };
        match r1 {
            Ok(rv1) => resolve_stmts_spec(nodes, rv1, ids, i + 1, bound),
            Err(er) => Err(er),
        }
    }
}

} // verus!

use vstd::prelude::*;

verus! {

/// The specification-level image of one resolver scope vector.
pub open spec fn rscope_view(v: Vec<(String, bool)>) -> RScopeV {
    v@.map_values(|p: (String, bool)| (p.0@, p.1))
}

/// The mark recorded for `name` in `vals`, if any.
fn rscope_get(vals: &Vec<(String, bool)>, name: &String) -> (r: Option<bool>)
    ensures
        r == rs_get(rscope_view(*vals), name@),
{
    let n = vals.len();
    let mut i: usize = 0;
    while i < n
        invariant
            n == vals@.len(),
            0 <= i <= n,
            forall|j: int| 0 <= j < i ==> (#[trigger] rscope_view(*vals)[j]).0 != name@,
        decreases n - i,
    {
        if vals[i].0 == *name {
            proof {
                lemma_rs_get_skip(rscope_view(*vals), name@, i as int);
                assert(rscope_view(*vals).skip(i as int)[0] == rscope_view(*vals)[i as int]);
            }
            return Some(vals[i].1);
        }
        i = i + 1;
    }
    proof {
        lemma_rs_get_skip(rscope_view(*vals), name@, n as int);
        assert(rscope_view(*vals).skip(n as int).len() == 0);
    }
    None
}

/// Mark `name` as `b` in `vals`.
fn rscope_set(vals: &mut Vec<(String, bool)>, name: &String, b: bool)
    ensures
        rscope_view(*final(vals)) == rs_set(rscope_view(*old(vals)), name@, b),
{
    let n = vals.len();
    let mut i: usize = 0;
    while i < n
        invariant
            n == vals@.len(),
            0 <= i <= n,
            *vals == *old(vals),
            forall|j: int| 0 <= j < i ==> (#[trigger] rscope_view(*vals)[j]).0 != name@,
        decreases n - i,
    {
        if vals[i].0 == *name {
            proof {
                lemma_rs_set_update(rscope_view(*vals), name@, b, i as int);
            }
            vals[i] = (name.clone(), b);
            proof {
                assert(rscope_view(*vals) =~= rscope_view(*old(vals)).update(
                    i as int,
                    (name@, b),
                ));
            }
            return ;
        }
        i = i + 1;
    }
    proof {
        lemma_rs_set_push(rscope_view(*vals), name@, b);
    }
    vals.push((name.clone(), b));
    proof {
        assert(rscope_view(*vals) =~= rscope_view(*old(vals)).push((name@, b)));
    }
}

/// The resolver: a stack of static scopes and the resolution map it
/// produces.
#[derive(Debug)]
pub struct Resolver {
    pub scopes: Vec<Vec<(String, bool)>>,
    pub resolutions: Vec<(usize, usize)>,
}

impl View for Resolver {
    type V = ResolverV;

    open spec fn view(&self) -> ResolverV {
        ResolverV {
            scopes: self.scopes@.map_values(|v: Vec<(String, bool)>| rscope_view(v)),
            resolutions: self.resolutions@.map_values(
                |p: (usize, usize)| (p.0 as int, p.1 as int),
            ),
        }
    }
}

impl Default for Resolver {
    /// A resolver with no open scope and an empty resolution map.
    fn default() -> (r: Self)
        ensures
            r@.scopes == Seq::<RScopeV>::empty(),
            r@.resolutions == Seq::<(int, int)>::empty(),
    {
        let r = Resolver { scopes: Vec::new(), resolutions: Vec::new() };
        proof {
            assert(r@.scopes =~= Seq::<RScopeV>::empty());
            assert(r@.resolutions =~= Seq::<(int, int)>::empty());
        }
        r
    }
}

impl Resolver {
    /// Open a scope.
    pub fn begin_scope(&mut self)
        ensures
            final(self)@ == old(self)@.begin(),
    {
        self.scopes.push(Vec::new());
        proof {
            assert(self@.scopes =~~= old(self)@.scopes.push(Seq::empty()));
            assert(self@ =~~= old(self)@.begin());
        }
    }

    /// Close the innermost scope.
    pub fn end_scope(&mut self)
        ensures
            final(self)@ == old(self)@.end(),
    {
        if self.scopes.len() > 0 {
            self.scopes.pop();
            proof {
                assert(self@.scopes =~= old(self)@.scopes.drop_last());
                assert(self@ =~~= old(self)@.end());
            }
        }
    }

    /// Mark `name` in the innermost scope; a no-op at global scope.
    fn mark(&mut self, name: &String, b: bool)
        ensures
            final(self)@ == old(self)@.mark(name@, b),
    {
        let n = self.scopes.len();
        if n > 0 {
            let sc = &mut self.scopes[n - 1];
            rscope_set(sc, name, b);
            proof {
                assert(self@.scopes =~= old(self)@.scopes.update(
                    n - 1,
                    rs_set(old(self)@.scopes.last(), name@, b),
                ));
                assert(self@ =~~= old(self)@.mark(name@, b));
            }
        }
    }

    /// Walk from the innermost scope (spec index `upto - 1`) outward,
    /// looking for `name`.
    fn distance_upto(&self, name: &String, upto: usize) -> (r: Option<usize>)
        requires
            upto <= self@.scopes.len(),
        ensures
            match r {
                Some(d) => self@.distance_from(name@, upto as int - 1) == Some(d as int),
                None => self@.distance_from(name@, upto as int - 1) is None,
            },
        decreases upto,
    {
        if upto == 0 {
            return None;
        }
        let i = upto - 1;
        match rscope_get(&self.scopes[i], name) {
            Some(_) => Some(self.scopes.len() - 1 - i),
            None => self.distance_upto(name, i),
        }
    }

    /// Record the lexical distance for a reference found in an open scope.
    fn resolve_local(&mut self, tok: &Token)
        ensures
            final(self)@ == old(self)@.resolve_local(*tok),
    {
        let n = self.scopes.len();
        match self.distance_upto(&tok.lexeme, n) {
            Some(d) => {
                self.resolutions.push((tok.id, d));
                proof {
                    assert(self@.resolutions =~= old(self)@.resolutions.push(
                        (tok.id as int, d as int),
                    ));
                    assert(self@ =~~= old(self)@.resolve_local(*tok));
                }
            },
            None => {
                proof {
                    assert(self@ =~~= old(self)@.resolve_local(*tok));
                }
            },
        }
    }

    /// Resolve the expression at node `e`.
    fn resolve_expr(&mut self, nodes: &Vec<Node>, e: usize) -> (r: Result<(), ResolveError>)
        requires
            wf_nodes(nodes@),
            e < nodes@.len(),
        ensures
            match r {
                Ok(_) => resolve_expr_spec(nodes@, old(self)@, e as int) == Ok::<
                    ResolverV,
                    ResolveErrV,
                >(final(self)@),
                Err(er) => resolve_expr_spec(nodes@, old(self)@, e as int) == Err::<
                    ResolverV,
                    ResolveErrV,
                >(er@),
            },
        decreases e, 1int, 0int,
    {
        proof {
            assert(node_wf(nodes@[e as int], e as int));
        }
        match &nodes[e] {
            Node::Stmt(_) => Ok(()),
            Node::Expr(ex) => match ex {
                Expr::Literal(_) => Ok(()),
                Expr::Unary { right, .. } => self.resolve_expr(nodes, *right),
                Expr::Binary { left, right, .. } => {
                    self.resolve_expr(nodes, *left)?;
                    self.resolve_expr(nodes, *right)
                },
                Expr::Logical { left, right, .. } => {
                    self.resolve_expr(nodes, *left)?;
                    self.resolve_expr(nodes, *right)
                },
                Expr::Group(inner) => self.resolve_expr(nodes, *inner),
                Expr::Variable(tok) => {
                    let n = self.scopes.len();
                    if n > 0 {
                        if let Some(false) = rscope_get(&self.scopes[n - 1], &tok.lexeme) {
                            proof {
                                assert(self@.scopes.last() == rscope_view(
                                    self.scopes@[n as int - 1],
                                ));
                            }
                            return Err(ResolveError::SelfReference(tok.lexeme.clone()));
                        }
                    }
                    proof {
                        if n > 0 {
                            assert(self@.scopes.last() == rscope_view(self.scopes@[n as int - 1]));
                        }
                        assert(!self@.is_self_reference(*tok));
                    }
                    self.resolve_local(tok);
                    Ok(())
                },
                Expr::Assignment { name, value } => {
                    self.resolve_expr(nodes, *value)?;
                    self.resolve_local(name);
                    Ok(())
                },
                Expr::Block { stmts, return_expr } => {
                    self.begin_scope();
                    self.resolve_stmts(nodes, stmts, 0, Ghost(e as int))?;
                    match return_expr {
                        Some(re) => {
                            self.resolve_expr(nodes, *re)?;
                        },
                        None => {},
                    }
                    self.end_scope();
                    Ok(())
                },
                Expr::If { condition, then_branch, else_branch } => {
                    self.resolve_expr(nodes, *condition)?;
                    self.resolve_expr(nodes, *then_branch)?;
                    match else_branch {
                        Some(eb) => self.resolve_expr(nodes, *eb),
                        None => Ok(()),
                    }
                },
                Expr::While { condition, body } => {
                    self.resolve_expr(nodes, *condition)?;
                    self.resolve_expr(nodes, *body)
                },
                Expr::For { variable, iterable, body } => {
                    self.resolve_expr(nodes, *iterable)?;
                    self.begin_scope();
                    match &nodes[*variable] {
                        Node::Expr(Expr::Variable(tok)) => {
                            let lex = tok.lexeme.clone();
                            self.mark(&lex, false);
                            self.mark(&lex, true);
                        },
                        _ => {},
                    }
                    self.resolve_expr(nodes, *body)?;
                    self.end_scope();
                    Ok(())
                },
                Expr::Call { callee, args, .. } => {
                    self.resolve_expr(nodes, *callee)?;
                    self.resolve_exprs(nodes, args, 0, Ghost(e as int))
                },
                Expr::FieldAccess { object, .. } => self.resolve_expr(nodes, *object),
                Expr::FieldSet { object, value, .. } => {
                    self.resolve_expr(nodes, *value)?;
                    self.resolve_expr(nodes, *object)
                },
                Expr::Return { value, .. } => match value {
                    Some(v) => self.resolve_expr(nodes, *v),
                    None => Ok(()),
                },
            },
        }
    }

    /// Resolve a list of expression nodes (call arguments), in order.
    fn resolve_exprs(
        &mut self,
        nodes: &Vec<Node>,
        ids: &Vec<usize>,
        i: usize,
        Ghost(bound): Ghost<int>,
    ) -> (r: Result<(), ResolveError>)
        requires
            wf_nodes(nodes@),
            i <= ids@.len(),
            bound <= nodes@.len(),
            forall|j: int| 0 <= j < ids@.len() ==> (#[trigger] ids@[j]) < bound,
        ensures
            match r {
                Ok(_) => resolve_exprs_spec(nodes@, old(self)@, ids@, i as int, bound) == Ok::<
                    ResolverV,
                    ResolveErrV,
                >(final(self)@),
                Err(er) => resolve_exprs_spec(nodes@, old(self)@, ids@, i as int, bound) == Err::<
                    ResolverV,
                    ResolveErrV,
                >(er@),
            },
        decreases bound, 0int, ids@.len() - i,
    {
        if i >= ids.len() {
            return Ok(());
        }
        self.resolve_expr(nodes, ids[i])?;
        self.resolve_exprs(nodes, ids, i + 1, Ghost(bound))
    }

    /// Resolve a function body: open a scope, declare and define every
    /// parameter, resolve the body, close the scope.  Recursion into the
    /// function's own name works because the name was defined in the
    /// enclosing scope before this is called.
    fn resolve_function(&mut self, nodes: &Vec<Node>, params: &Vec<Token>, body: usize) -> (r:
        Result<(), ResolveError>)
        requires
            wf_nodes(nodes@),
            body < nodes@.len(),
        ensures
            match r {
                Ok(_) => resolve_function_spec(nodes@, old(self)@, params@, body as int) == Ok::<
                    ResolverV,
                    ResolveErrV,
                >(final(self)@),
                Err(er) => resolve_function_spec(nodes@, old(self)@, params@, body as int)
                    == Err::<ResolverV, ResolveErrV>(er@),
            },
        decreases body, 2int, 0int,
    {
        self.begin_scope();
        let n = params.len();
        let mut i: usize = 0;
        while i < n
            invariant
                n == params@.len(),
                0 <= i <= n,
                wf_nodes(nodes@),
                body < nodes@.len(),
                declare_params_spec(old(self)@.begin(), params@, 0) == declare_params_spec(
                    self@,
                    params@,
                    i as int,
                ),
            decreases n - i,
        {
            let lex = params[i].lexeme.clone();
            self.mark(&lex, false);
            self.mark(&lex, true);
            i = i + 1;
        }
        self.resolve_expr(nodes, body)?;
        self.end_scope();
        Ok(())
    }

    /// Resolve the statement at node `s`.
    fn resolve_stmt(&mut self, nodes: &Vec<Node>, s: usize) -> (r: Result<(), ResolveError>)
        requires
            wf_nodes(nodes@),
            s < nodes@.len(),
        ensures
            match r {
                Ok(_) => resolve_stmt_spec(nodes@, old(self)@, s as int) == Ok::<
                    ResolverV,
                    ResolveErrV,
                >(final(self)@),
                Err(er) => resolve_stmt_spec(nodes@, old(self)@, s as int) == Err::<
                    ResolverV,
                    ResolveErrV,
                >(er@),
            },
        decreases s, 1int, 0int,
    {
        proof {
            assert(node_wf(nodes@[s as int], s as int));
        }
        match &nodes[s] {
            Node::Expr(_) => Ok(()),
            Node::Stmt(stm) => match stm {
                Stmt::Print(e) => self.resolve_expr(nodes, *e),
                Stmt::Expr { expr, .. } => self.resolve_expr(nodes, *expr),
                Stmt::Var { name, initializer } => {
                    self.mark(&name.lexeme, false);
                    match initializer {
                        Some(init) => {
                            self.resolve_expr(nodes, *init)?;
                        },
                        None => {},
                    }
                    self.mark(&name.lexeme, true);
                    Ok(())
                },
                Stmt::Fn { name, params, body } => {
                    self.mark(&name.lexeme, false);
                    self.mark(&name.lexeme, true);
                    self.resolve_function(nodes, params, *body)
                },
                Stmt::Class { name, methods } => {
                    self.mark(&name.lexeme, false);
                    self.mark(&name.lexeme, true);
                    self.begin_scope();
                    let this_name = "this".to_owned();
                    self.mark(&this_name, false);
                    self.mark(&this_name, true);
                    self.resolve_methods(nodes, methods, 0, Ghost(s as int))?;
                    self.end_scope();
                    Ok(())
                },
            },
        }
    }

    /// Resolve each method of a class, in order.
    fn resolve_methods(
        &mut self,
        nodes: &Vec<Node>,
        ids: &Vec<usize>,
        i: usize,
        Ghost(bound): Ghost<int>,
    ) -> (r: Result<(), ResolveError>)
        requires
            wf_nodes(nodes@),
            i <= ids@.len(),
            bound <= nodes@.len(),
            forall|j: int| 0 <= j < ids@.len() ==> (#[trigger] ids@[j]) < bound,
        ensures
            match r {
                Ok(_) => resolve_methods_spec(nodes@, old(self)@, ids@, i as int, bound) == Ok::<
                    ResolverV,
                    ResolveErrV,
                >(final(self)@),
                Err(er) => resolve_methods_spec(nodes@, old(self)@, ids@, i as int, bound)
                    == Err::<ResolverV, ResolveErrV>(er@),
            },
        decreases bound, 0int, ids@.len() - i,
    {
        if i >= ids.len() {
            return Ok(());
        }
        let m = ids[i];
        proof {
            assert(node_wf(nodes@[m as int], m as int));
        }
        match &nodes[m] {
            Node::Stmt(Stmt::Fn { params, body, .. }) => {
                self.resolve_function(nodes, params, *body)?;
            },
            _ => {},
        }
        self.resolve_methods(nodes, ids, i + 1, Ghost(bound))
    }

    /// Resolve a list of statement nodes, in order.
    fn resolve_stmts(
        &mut self,
        nodes: &Vec<Node>,
        ids: &Vec<usize>,
        i: usize,
        Ghost(bound): Ghost<int>,
    ) -> (r: Result<(), ResolveError>)
        requires
            wf_nodes(nodes@),
            i <= ids@.len(),
            bound <= nodes@.len(),
            forall|j: int| 0 <= j < ids@.len() ==> (#[trigger] ids@[j]) < bound,
        ensures
            match r {
                Ok(_) => resolve_stmts_spec(nodes@, old(self)@, ids@, i as int, bound) == Ok::<
                    ResolverV,
                    ResolveErrV,
                >(final(self)@),
                Err(er) => resolve_stmts_spec(nodes@, old(self)@, ids@, i as int, bound) == Err::<
                    ResolverV,
                    ResolveErrV,
                >(er@),
            },
        decreases bound, 0int, ids@.len() - i,
    {
        if i >= ids.len() {
            return Ok(());
        }
        self.resolve_stmt(nodes, ids[i])?;
        self.resolve_stmts(nodes, ids, i + 1, Ghost(bound))
    }

    /// The whole static pass over a program: resolve every top-level
    /// statement in order.  On success the resolution map is exactly what
    /// the resolution semantics says; on failure the program is rejected
    /// before any of it runs.
    pub fn resolver_pass(&mut self, program: &Program) -> (r: Result<(), ResolveError>)
        requires
            program.wf(),
        ensures
            match r {
                Ok(_) => resolve_stmts_spec(
                    program.nodes@,
                    old(self)@,
                    program.top@,
                    0,
                    program.nodes@.len() as int,
                ) == Ok::<ResolverV, ResolveErrV>(final(self)@),
                Err(er) => resolve_stmts_spec(
                    program.nodes@,
                    old(self)@,
                    program.top@,
                    0,
                    program.nodes@.len() as int,
                ) == Err::<ResolverV, ResolveErrV>(er@),
            },
    {
        self.resolve_stmts(&program.nodes, &program.top, 0, Ghost(program.nodes@.len() as int))
    }
}

} // verus!
