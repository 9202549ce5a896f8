//! The recursive-descent parser: builds the expression/statement arena from
//! a token list.  Children are pushed before their parents, so the arena it
//! produces is bottom-up ordered (`wf_nodes`), which is what the resolver's
//! termination rests on.  A failing statement is reported and the parser
//! resynchronises at the next statement boundary, so one pass can collect
//! several errors.

use vstd::prelude::*;

use crate::ast::{node_wf, wf_nodes, Expr, LiteralExpr, Node, Program, Stmt};
use crate::token::{LiteralValue, Token, TokenKind};

verus! {

/// A parse error, each carrying the source line it was noticed on.
#[derive(Debug, Clone, Copy, PartialEq, Eq, Structural)]
pub enum ParserError {
    UnexpectedToken(usize),
    UnclosedGrouping(usize),
    UnclosedBlock(usize),
    MissingTerminator(usize),
    InvalidAssignmentTarget(usize),
    InvalidVariableName(usize),
    MalformedLiteral(usize),
}


/// What a produced node demands of one consumed token: this very token, a
/// token of a kind, or a literal token with this payload.
pub enum TokenPattern {
    Exact(Token),
    Just(TokenKind),
    Lit(LiteralValue),
}

/// Whether token `t` satisfies pattern `p`.
pub open spec fn pat_matches(t: Token, p: TokenPattern) -> bool {
    match p {
        TokenPattern::Exact(x) => t@ == x@,
        TokenPattern::Just(k) => t.kind == k,
        TokenPattern::Lit(v) => t.kind == TokenKind::Literal && t.literal@ == v@,
    }
}

/// Whether the tokens from `lo` (inclusive) to `hi` (exclusive) satisfy the
/// patterns, one each.
pub open spec fn matches_span(toks: Seq<Token>, lo: int, hi: int, pats: Seq<TokenPattern>) -> bool {
    &&& 0 <= lo <= hi <= toks.len()
    &&& hi - lo == pats.len()
    &&& forall|k: int| 0 <= k < pats.len() ==> pat_matches(toks[lo + k], #[trigger] pats[k])
}

/// The tokens an expression node was built from, re-rendered as patterns:
/// its own stored tokens exactly, structural tokens by kind, literals by
/// payload.  This is the grammar relation the parser is proved against: a
/// node produced for a token span re-renders to exactly that span.
pub open spec fn unparse_expr(nodes: Seq<Node>, e: int) -> Seq<TokenPattern>
    decreases e, 1int, 0int,
{
    if !(0 <= e < nodes.len()) {
        Seq::empty()
    } else {
        match nodes[e] {
            Node::Stmt(_) => Seq::empty(),
            Node::Expr(ex) => match ex {
                Expr::Literal(LiteralExpr::Bool(b)) => seq![
                    TokenPattern::Just(
                        if b {
                            TokenKind::True
                        } else {
                            TokenKind::False
                        },
                    ),
                ],
                Expr::Literal(LiteralExpr::Integer(n)) => seq![
                    TokenPattern::Lit(LiteralValue::Integer(n)),
                ],
                Expr::Literal(LiteralExpr::Str(st)) => seq![
                    TokenPattern::Lit(LiteralValue::Str(st)),
                ],
                Expr::Unary { operator, right } => seq![TokenPattern::Exact(operator)]
                    + unparse_sub(nodes, right as int, e),
                Expr::Binary { left, operator, right } => unparse_sub(nodes, left as int, e)
                    + seq![TokenPattern::Exact(operator)] + unparse_sub(nodes, right as int, e),
                Expr::Logical { left, operator, right } => unparse_sub(nodes, left as int, e)
                    + seq![TokenPattern::Exact(operator)] + unparse_sub(nodes, right as int, e),
                Expr::Group(inner) => seq![TokenPattern::Just(TokenKind::LeftParen)] + unparse_sub(
                    nodes,
                    inner as int,
                    e,
                ) + seq![TokenPattern::Just(TokenKind::RightParen)],
                Expr::Variable(tok) => seq![TokenPattern::Exact(tok)],
                Expr::Assignment { name, value } => seq![
                    TokenPattern::Exact(name),
                    TokenPattern::Just(TokenKind::Equal),
                ] + unparse_sub(nodes, value as int, e),
                Expr::Block { stmts, return_expr } => seq![
                    TokenPattern::Just(TokenKind::LeftCurly),
                ] + unparse_stmt_list(nodes, stmts@, 0, e) + (match return_expr {
                    Some(r) => unparse_sub(nodes, r as int, e),
                    None => Seq::empty(),
                }) + seq![TokenPattern::Just(TokenKind::RightCurly)],
                Expr::If { condition, then_branch, else_branch } => seq![
                    TokenPattern::Just(TokenKind::If),
                ] + unparse_sub(nodes, condition as int, e) + unparse_sub(
                    nodes,
                    then_branch as int,
                    e,
                ) + (match else_branch {
                    Some(eb) => seq![TokenPattern::Just(TokenKind::Else)] + unparse_sub(
                        nodes,
                        eb as int,
                        e,
                    ),
                    None => Seq::empty(),
                }),
                Expr::While { condition, body } => seq![TokenPattern::Just(TokenKind::While)]
                    + unparse_sub(nodes, condition as int, e) + unparse_sub(nodes, body as int, e),
                Expr::For { variable, iterable, body } => seq![TokenPattern::Just(TokenKind::For)]
                    + unparse_sub(nodes, variable as int, e) + seq![
                    TokenPattern::Just(TokenKind::In),
                ] + unparse_sub(nodes, iterable as int, e) + unparse_sub(nodes, body as int, e),
                Expr::Call { callee, paren, args } => unparse_sub(nodes, callee as int, e) + seq![
                    TokenPattern::Exact(paren),
                ] + unparse_arg_list(nodes, args@, 0, e) + seq![
                    TokenPattern::Just(TokenKind::RightParen),
                ],
                Expr::FieldAccess { object, name } => unparse_sub(nodes, object as int, e) + seq![
                    TokenPattern::Just(TokenKind::Dot),
                    TokenPattern::Exact(name),
                ],
                Expr::FieldSet { object, name, value } => unparse_sub(nodes, object as int, e)
                    + seq![
                    TokenPattern::Just(TokenKind::Dot),
                    TokenPattern::Exact(name),
                    TokenPattern::Just(TokenKind::Equal),
                ] + unparse_sub(nodes, value as int, e),
                Expr::Return { keyword, value } => seq![TokenPattern::Exact(keyword)] + (match value {
                    Some(v) => unparse_sub(nodes, v as int, e),
                    None => Seq::empty(),
                }),
            },
        }
    }
}

/// A child expression's rendering, guarded by the arena's bottom-up order.
pub open spec fn unparse_sub(nodes: Seq<Node>, child: int, parent: int) -> Seq<TokenPattern>
    decreases parent, 0int, 0int,
{
    if 0 <= child < parent {
        unparse_expr(nodes, child)
    } else {
        Seq::empty()
    }
}

/// The tokens a statement node was built from.
pub open spec fn unparse_stmt(nodes: Seq<Node>, s: int) -> Seq<TokenPattern>
    decreases s, 2int, 0int,
{
    if !(0 <= s < nodes.len()) {
        Seq::empty()
    } else {
        match nodes[s] {
            Node::Expr(_) => Seq::empty(),
            Node::Stmt(stm) => match stm {
                Stmt::Print(e) => seq![TokenPattern::Just(TokenKind::Print)] + unparse_sub(
                    nodes,
                    e as int,
                    s,
                ) + seq![TokenPattern::Just(TokenKind::Semicolon)],
                Stmt::Expr { expr, has_semicolon } => unparse_sub(nodes, expr as int, s) + (
                if has_semicolon {
                    seq![TokenPattern::Just(TokenKind::Semicolon)]
                } else {
                    Seq::empty()
                }),
                Stmt::Var { name, initializer } => seq![
                    TokenPattern::Just(TokenKind::Var),
                    TokenPattern::Exact(name),
                ] + (match initializer {
                    Some(init) => seq![TokenPattern::Just(TokenKind::Equal)] + unparse_sub(
                        nodes,
                        init as int,
                        s,
                    ),
                    None => Seq::empty(),
                }) + seq![TokenPattern::Just(TokenKind::Semicolon)],
                Stmt::Fn { name, params, body } => seq![
                    TokenPattern::Just(TokenKind::Fn),
                    TokenPattern::Exact(name),
                    TokenPattern::Just(TokenKind::LeftParen),
                ] + unparse_params(params@, 0) + seq![
                    TokenPattern::Just(TokenKind::RightParen),
                ] + unparse_sub(nodes, body as int, s),
                Stmt::Class { name, methods } => seq![
                    TokenPattern::Just(TokenKind::Class),
                    TokenPattern::Exact(name),
                    TokenPattern::Just(TokenKind::LeftCurly),
                ] + unparse_method_list(nodes, methods@, 0, s) + seq![
                    TokenPattern::Just(TokenKind::RightCurly),
                ],
            },
        }
    }
}

/// The statements of a block, rendered in order.
pub open spec fn unparse_stmt_list(nodes: Seq<Node>, ids: Seq<usize>, i: int, bound: int) -> Seq<
    TokenPattern,
>
    decreases bound, 0int, ids.len() - i,
{
    if !(0 <= i < ids.len()) {
        Seq::empty()
    } else {
        (if ids[i] < bound {
            unparse_stmt(nodes, ids[i] as int)
        } else {
            Seq::empty()
        }) + unparse_stmt_list(nodes, ids, i + 1, bound)
    }
}

/// The methods of a class, rendered in order.
pub open spec fn unparse_method_list(nodes: Seq<Node>, ids: Seq<usize>, i: int, bound: int) -> Seq<
    TokenPattern,
>
    decreases bound, 0int, ids.len() - i,
{
    if !(0 <= i < ids.len()) {
        Seq::empty()
    } else {
        (if ids[i] < bound {
            unparse_stmt(nodes, ids[i] as int)
        } else {
            Seq::empty()
        }) + unparse_method_list(nodes, ids, i + 1, bound)
    }
}

/// The arguments of a call, comma-separated, rendered in order.
pub open spec fn unparse_arg_list(nodes: Seq<Node>, ids: Seq<usize>, i: int, bound: int) -> Seq<
    TokenPattern,
>
    decreases bound, 0int, ids.len() - i,
{
    if !(0 <= i < ids.len()) {
        Seq::empty()
    } else {
        (if i > 0 {
            seq![TokenPattern::Just(TokenKind::Comma)]
        } else {
            Seq::empty()
        }) + (if ids[i] < bound {
            unparse_expr(nodes, ids[i] as int)
        } else {
            Seq::empty()
        }) + unparse_arg_list(nodes, ids, i + 1, bound)
    }
}

/// The parameters of a function declaration, comma-separated.
pub open spec fn unparse_params(params: Seq<Token>, i: int) -> Seq<TokenPattern>
    decreases params.len() - i,
{
    if !(0 <= i < params.len()) {
        Seq::empty()
    } else {
        (if i > 0 {
            seq![TokenPattern::Just(TokenKind::Comma)]
        } else {
            Seq::empty()
        }) + seq![TokenPattern::Exact(params[i])] + unparse_params(params, i + 1)
    }
}

/// The top-level statements of a program, rendered in order.
pub open spec fn unparse_program(nodes: Seq<Node>, top: Seq<usize>, i: int) -> Seq<TokenPattern>
    decreases top.len() - i,
{
    if !(0 <= i < top.len()) {
        Seq::empty()
    } else {
        unparse_stmt(nodes, top[i] as int) + unparse_program(nodes, top, i + 1)
    }
}

/// Two adjacent spans concatenate.
pub proof fn lemma_matches_concat(
    toks: Seq<Token>,
    lo: int,
    mid: int,
    hi: int,
    a: Seq<TokenPattern>,
    b: Seq<TokenPattern>,
)
    requires
        matches_span(toks, lo, mid, a),
        matches_span(toks, mid, hi, b),
    ensures
        matches_span(toks, lo, hi, a + b),
{
    assert forall|k: int| 0 <= k < (a + b).len() implies pat_matches(
        toks[lo + k],
        #[trigger] (a + b)[k],
    ) by {
        if k < a.len() {
            assert((a + b)[k] == a[k]);
        } else {
            assert((a + b)[k] == b[k - a.len()]);
            assert(pat_matches(toks[mid + (k - a.len())], b[k - a.len()]));
        }
    }
}

/// A span splits at a pattern boundary.
pub proof fn lemma_matches_split(
    toks: Seq<Token>,
    lo: int,
    hi: int,
    a: Seq<TokenPattern>,
    b: Seq<TokenPattern>,
)
    requires
        matches_span(toks, lo, hi, a + b),
    ensures
        matches_span(toks, lo, lo + a.len(), a),
        matches_span(toks, lo + a.len(), hi, b),
{
    assert forall|k: int| 0 <= k < a.len() implies pat_matches(toks[lo + k], #[trigger] a[k]) by {
        assert((a + b)[k] == a[k]);
        assert(pat_matches(toks[lo + k], (a + b)[k]));
    }
    assert forall|k: int| 0 <= k < b.len() implies pat_matches(
        toks[lo + a.len() + k],
        #[trigger] b[k],
    ) by {
        assert((a + b)[a.len() + k] == b[k]);
        assert(pat_matches(toks[lo + (a.len() + k)], (a + b)[a.len() + k]));
    }
}

/// The second arena extends the first: same nodes, possibly more after.
pub open spec fn arena_extends(n2: Seq<Node>, n1: Seq<Node>) -> bool {
    &&& n1.len() <= n2.len()
    &&& forall|i: int| 0 <= i < n1.len() ==> n2[i] == #[trigger] n1[i]
}

/// Arena extension is transitive.
pub proof fn lemma_extends_trans(a: Seq<Node>, b: Seq<Node>, c: Seq<Node>)
    requires
        arena_extends(b, a),
        arena_extends(c, b),
    ensures
        arena_extends(c, a),
{
    assert forall|i: int| 0 <= i < a.len() implies c[i] == #[trigger] a[i] by {
        assert(b[i] == a[i]);
        assert(c[i] == b[i]);
    }
}

/// Appending nodes to the arena never changes what an existing node
/// renders to.
pub proof fn lemma_unparse_grows(nodes1: Seq<Node>, nodes2: Seq<Node>, e: int)
    requires
        arena_extends(nodes2, nodes1),
        e < nodes1.len(),
    ensures
        unparse_expr(nodes2, e) == unparse_expr(nodes1, e),
        unparse_stmt(nodes2, e) == unparse_stmt(nodes1, e),
    decreases e, 2int, 0int,
{
    if 0 <= e < nodes1.len() {
        assert(nodes2[e] == nodes1[e]);
        match nodes1[e] {
            Node::Expr(ex) => {
                match ex {
                    Expr::Unary { right, .. } => lemma_unparse_sub_grows(
                        nodes1,
                        nodes2,
                        right as int,
                        e,
                    ),
                    Expr::Binary { left, right, .. } => {
                        lemma_unparse_sub_grows(nodes1, nodes2, left as int, e);
                        lemma_unparse_sub_grows(nodes1, nodes2, right as int, e);
                    },
                    Expr::Logical { left, right, .. } => {
                        lemma_unparse_sub_grows(nodes1, nodes2, left as int, e);
                        lemma_unparse_sub_grows(nodes1, nodes2, right as int, e);
                    },
                    Expr::Group(inner) => lemma_unparse_sub_grows(nodes1, nodes2, inner as int, e),
                    Expr::Assignment { value, .. } => lemma_unparse_sub_grows(
                        nodes1,
                        nodes2,
                        value as int,
                        e,
                    ),
                    Expr::Block { stmts, return_expr } => {
                        lemma_unparse_stmt_list_grows(nodes1, nodes2, stmts@, 0, e);
                        match return_expr {
                            Some(r) => lemma_unparse_sub_grows(nodes1, nodes2, r as int, e),
                            None => {},
                        }
                    },
                    Expr::If { condition, then_branch, else_branch } => {
                        lemma_unparse_sub_grows(nodes1, nodes2, condition as int, e);
                        lemma_unparse_sub_grows(nodes1, nodes2, then_branch as int, e);
                        match else_branch {
                            Some(eb) => lemma_unparse_sub_grows(nodes1, nodes2, eb as int, e),
                            None => {},
                        }
                    },
                    Expr::While { condition, body } => {
                        lemma_unparse_sub_grows(nodes1, nodes2, condition as int, e);
                        lemma_unparse_sub_grows(nodes1, nodes2, body as int, e);
                    },
                    Expr::For { variable, iterable, body } => {
                        lemma_unparse_sub_grows(nodes1, nodes2, variable as int, e);
                        lemma_unparse_sub_grows(nodes1, nodes2, iterable as int, e);
                        lemma_unparse_sub_grows(nodes1, nodes2, body as int, e);
                    },
                    Expr::Call { callee, args, .. } => {
                        lemma_unparse_sub_grows(nodes1, nodes2, callee as int, e);
                        lemma_unparse_arg_list_grows(nodes1, nodes2, args@, 0, e);
                    },
                    Expr::FieldAccess { object, .. } => lemma_unparse_sub_grows(
                        nodes1,
                        nodes2,
                        object as int,
                        e,
                    ),
                    Expr::FieldSet { object, value, .. } => {
                        lemma_unparse_sub_grows(nodes1, nodes2, object as int, e);
                        lemma_unparse_sub_grows(nodes1, nodes2, value as int, e);
                    },
                    Expr::Return { value, .. } => {
                        match value {
                            Some(v) => lemma_unparse_sub_grows(nodes1, nodes2, v as int, e),
                            None => {},
                        }
                    },
                    _ => {},
                }
            },
            Node::Stmt(stm) => {
                match stm {
                    Stmt::Print(p) => lemma_unparse_sub_grows(nodes1, nodes2, p as int, e),
                    Stmt::Expr { expr, .. } => lemma_unparse_sub_grows(
                        nodes1,
                        nodes2,
                        expr as int,
                        e,
                    ),
                    Stmt::Var { initializer, .. } => {
                        match initializer {
                            Some(init) => lemma_unparse_sub_grows(nodes1, nodes2, init as int, e),
                            None => {},
                        }
                    },
                    Stmt::Fn { body, .. } => lemma_unparse_sub_grows(nodes1, nodes2, body as int, e),
                    Stmt::Class { methods, .. } => lemma_unparse_method_list_grows(
                        nodes1,
                        nodes2,
                        methods@,
                        0,
                        e,
                    ),
                }
            },
        }
    }
}

/// Arena growth and a child's rendering.
pub proof fn lemma_unparse_sub_grows(nodes1: Seq<Node>, nodes2: Seq<Node>, child: int, parent: int)
    requires
        arena_extends(nodes2, nodes1),
        parent < nodes1.len(),
    ensures
        unparse_sub(nodes2, child, parent) == unparse_sub(nodes1, child, parent),
    decreases parent, 1int, 0int,
{
    if 0 <= child < parent {
        lemma_unparse_grows(nodes1, nodes2, child);
    }
}

/// Arena growth and a statement list's rendering.
pub proof fn lemma_unparse_stmt_list_grows(
    nodes1: Seq<Node>,
    nodes2: Seq<Node>,
    ids: Seq<usize>,
    i: int,
    bound: int,
)
    requires
        arena_extends(nodes2, nodes1),
        bound <= nodes1.len(),
    ensures
        unparse_stmt_list(nodes2, ids, i, bound) == unparse_stmt_list(nodes1, ids, i, bound),
    decreases bound, 1int, ids.len() - i,
{
    if 0 <= i < ids.len() {
        if ids[i] < bound {
            lemma_unparse_grows(nodes1, nodes2, ids[i] as int);
        }
        lemma_unparse_stmt_list_grows(nodes1, nodes2, ids, i + 1, bound);
    }
}

/// Arena growth and a method list's rendering.
pub proof fn lemma_unparse_method_list_grows(
    nodes1: Seq<Node>,
    nodes2: Seq<Node>,
    ids: Seq<usize>,
    i: int,
    bound: int,
)
    requires
        arena_extends(nodes2, nodes1),
        bound <= nodes1.len(),
    ensures
        unparse_method_list(nodes2, ids, i, bound) == unparse_method_list(nodes1, ids, i, bound),
    decreases bound, 1int, ids.len() - i,
{
    if 0 <= i < ids.len() {
        if ids[i] < bound {
            lemma_unparse_grows(nodes1, nodes2, ids[i] as int);
        }
        lemma_unparse_method_list_grows(nodes1, nodes2, ids, i + 1, bound);
    }
}

/// Arena growth and an argument list's rendering.
pub proof fn lemma_unparse_arg_list_grows(
    nodes1: Seq<Node>,
    nodes2: Seq<Node>,
    ids: Seq<usize>,
    i: int,
    bound: int,
)
    requires
        arena_extends(nodes2, nodes1),
        bound <= nodes1.len(),
    ensures
        unparse_arg_list(nodes2, ids, i, bound) == unparse_arg_list(nodes1, ids, i, bound),
    decreases bound, 1int, ids.len() - i,
{
    if 0 <= i < ids.len() {
        if ids[i] < bound {
            lemma_unparse_grows(nodes1, nodes2, ids[i] as int);
        }
        lemma_unparse_arg_list_grows(nodes1, nodes2, ids, i + 1, bound);
    }
}


/// Appending a statement to a block's list appends its rendering.
pub proof fn lemma_stmt_list_snoc(nodes: Seq<Node>, ids: Seq<usize>, x: usize, bound: int)
    ensures
        unparse_stmt_list(nodes, ids.push(x), 0, bound) == unparse_stmt_list(nodes, ids, 0, bound)
            + (if x < bound {
            unparse_stmt(nodes, x as int)
        } else {
            Seq::empty()
        }),
{
    lemma_stmt_list_snoc_from(nodes, ids, x, bound, 0);
}

proof fn lemma_stmt_list_snoc_from(nodes: Seq<Node>, ids: Seq<usize>, x: usize, bound: int, i: int)
    requires
        0 <= i <= ids.len(),
    ensures
        unparse_stmt_list(nodes, ids.push(x), i, bound) == unparse_stmt_list(nodes, ids, i, bound)
            + (if x < bound {
            unparse_stmt(nodes, x as int)
        } else {
            Seq::empty()
        }),
    decreases ids.len() - i,
{
    let tail = if x < bound {
        unparse_stmt(nodes, x as int)
    } else {
        Seq::<TokenPattern>::empty()
    };
    if i == ids.len() {
        assert(unparse_stmt_list(nodes, ids.push(x), i, bound) == tail + unparse_stmt_list(
            nodes,
            ids.push(x),
            i + 1,
            bound,
        ));
        assert(unparse_stmt_list(nodes, ids.push(x), i + 1, bound) =~= Seq::<
            TokenPattern,
        >::empty());
        assert(tail + Seq::<TokenPattern>::empty() =~= tail);
        assert(unparse_stmt_list(nodes, ids, i, bound) =~= Seq::<TokenPattern>::empty());
        assert(Seq::<TokenPattern>::empty() + tail =~= tail);
    } else {
        lemma_stmt_list_snoc_from(nodes, ids, x, bound, i + 1);
        assert(ids.push(x)[i] == ids[i]);
        let head = if ids[i] < bound {
            unparse_stmt(nodes, ids[i] as int)
        } else {
            Seq::<TokenPattern>::empty()
        };
        assert(head + (unparse_stmt_list(nodes, ids, i + 1, bound) + tail) =~= (head
            + unparse_stmt_list(nodes, ids, i + 1, bound)) + tail);
    }
}

/// Appending a method to a class's list appends its rendering.
pub proof fn lemma_method_list_snoc(nodes: Seq<Node>, ids: Seq<usize>, x: usize, bound: int)
    ensures
        unparse_method_list(nodes, ids.push(x), 0, bound) == unparse_method_list(
            nodes,
            ids,
            0,
            bound,
        ) + (if x < bound {
            unparse_stmt(nodes, x as int)
        } else {
            Seq::empty()
        }),
{
    lemma_method_list_snoc_from(nodes, ids, x, bound, 0);
}

proof fn lemma_method_list_snoc_from(
    nodes: Seq<Node>,
    ids: Seq<usize>,
    x: usize,
    bound: int,
    i: int,
)
    requires
        0 <= i <= ids.len(),
    ensures
        unparse_method_list(nodes, ids.push(x), i, bound) == unparse_method_list(
            nodes,
            ids,
            i,
            bound,
        ) + (if x < bound {
            unparse_stmt(nodes, x as int)
        } else {
            Seq::empty()
        }),
    decreases ids.len() - i,
{
    let tail = if x < bound {
        unparse_stmt(nodes, x as int)
    } else {
        Seq::<TokenPattern>::empty()
    };
    if i == ids.len() {
        assert(unparse_method_list(nodes, ids.push(x), i + 1, bound) =~= Seq::<
            TokenPattern,
        >::empty());
        assert(tail + Seq::<TokenPattern>::empty() =~= tail);
        assert(unparse_method_list(nodes, ids, i, bound) =~= Seq::<TokenPattern>::empty());
        assert(Seq::<TokenPattern>::empty() + tail =~= tail);
    } else {
        lemma_method_list_snoc_from(nodes, ids, x, bound, i + 1);
        assert(ids.push(x)[i] == ids[i]);
        let head = if ids[i] < bound {
            unparse_stmt(nodes, ids[i] as int)
        } else {
            Seq::<TokenPattern>::empty()
        };
        assert(head + (unparse_method_list(nodes, ids, i + 1, bound) + tail) =~= (head
            + unparse_method_list(nodes, ids, i + 1, bound)) + tail);
    }
}

/// Appending an argument to a call's list appends a comma (after the
/// first) and its rendering.
pub proof fn lemma_arg_list_snoc(nodes: Seq<Node>, ids: Seq<usize>, x: usize, bound: int)
    ensures
        unparse_arg_list(nodes, ids.push(x), 0, bound) == unparse_arg_list(nodes, ids, 0, bound)
            + (if ids.len() > 0 {
            seq![TokenPattern::Just(TokenKind::Comma)]
        } else {
            Seq::empty()
        }) + (if x < bound {
            unparse_expr(nodes, x as int)
        } else {
            Seq::empty()
        }),
{
    lemma_arg_list_snoc_from(nodes, ids, x, bound, 0);
}

proof fn lemma_arg_list_snoc_from(nodes: Seq<Node>, ids: Seq<usize>, x: usize, bound: int, i: int)
    requires
        0 <= i <= ids.len(),
    ensures
        unparse_arg_list(nodes, ids.push(x), i, bound) == unparse_arg_list(nodes, ids, i, bound)
            + (if i < ids.len() || ids.len() > 0 || i > 0 {
            if ids.len() > 0 || i > 0 {
                seq![TokenPattern::Just(TokenKind::Comma)]
            } else {
                Seq::empty()
            }
        } else {
            Seq::empty()
        }) + (if x < bound {
            unparse_expr(nodes, x as int)
        } else {
            Seq::empty()
        }),
    decreases ids.len() - i,
{
    let comma = seq![TokenPattern::Just(TokenKind::Comma)];
    let tail = if x < bound {
        unparse_expr(nodes, x as int)
    } else {
        Seq::<TokenPattern>::empty()
    };
    if i == ids.len() {
        let sep = if i > 0 {
            comma
        } else {
            Seq::<TokenPattern>::empty()
        };
        assert(unparse_arg_list(nodes, ids.push(x), i + 1, bound) =~= Seq::<
            TokenPattern,
        >::empty());
        assert(unparse_arg_list(nodes, ids.push(x), i, bound) =~= sep + tail);
        assert(unparse_arg_list(nodes, ids, i, bound) =~= Seq::<TokenPattern>::empty());
        assert(Seq::<TokenPattern>::empty() + sep + tail =~= sep + tail);
    } else {
        lemma_arg_list_snoc_from(nodes, ids, x, bound, i + 1);
        assert(ids.push(x)[i] == ids[i]);
        let sep = if i > 0 {
            comma
        } else {
            Seq::<TokenPattern>::empty()
        };
        let head = if ids[i] < bound {
            unparse_expr(nodes, ids[i] as int)
        } else {
            Seq::<TokenPattern>::empty()
        };
        assert(sep + head + (unparse_arg_list(nodes, ids, i + 1, bound) + comma + tail) =~= (sep
            + head + unparse_arg_list(nodes, ids, i + 1, bound)) + comma + tail);
        assert(unparse_arg_list(nodes, ids.push(x), i, bound) =~= (sep + head
            + unparse_arg_list(nodes, ids, i + 1, bound)) + comma + tail);
        assert(unparse_arg_list(nodes, ids, i, bound) + comma + tail =~= (sep + head
            + unparse_arg_list(nodes, ids, i + 1, bound)) + comma + tail);
    }
}

/// Appending a parameter appends a comma (after the first) and its token.
pub proof fn lemma_params_snoc(params: Seq<Token>, x: Token)
    ensures
        unparse_params(params.push(x), 0) == unparse_params(params, 0) + (if params.len() > 0 {
            seq![TokenPattern::Just(TokenKind::Comma)]
        } else {
            Seq::empty()
        }) + seq![TokenPattern::Exact(x)],
{
    lemma_params_snoc_from(params, x, 0);
}

proof fn lemma_params_snoc_from(params: Seq<Token>, x: Token, i: int)
    requires
        0 <= i <= params.len(),
    ensures
        unparse_params(params.push(x), i) == unparse_params(params, i) + (if params.len() > 0 || i
            > 0 {
            seq![TokenPattern::Just(TokenKind::Comma)]
        } else {
            Seq::empty()
        }) + seq![TokenPattern::Exact(x)],
    decreases params.len() - i,
{
    let comma = seq![TokenPattern::Just(TokenKind::Comma)];
    let tail = seq![TokenPattern::Exact(x)];
    if i == params.len() {
        let sep = if i > 0 {
            comma
        } else {
            Seq::<TokenPattern>::empty()
        };
        assert(unparse_params(params.push(x), i + 1) =~= Seq::<TokenPattern>::empty());
        assert(unparse_params(params.push(x), i) =~= sep + tail);
        assert(unparse_params(params, i) =~= Seq::<TokenPattern>::empty());
        assert(Seq::<TokenPattern>::empty() + sep + tail =~= sep + tail);
    } else {
        lemma_params_snoc_from(params, x, i + 1);
        assert(params.push(x)[i] == params[i]);
        let sep = if i > 0 {
            comma
        } else {
            Seq::<TokenPattern>::empty()
        };
        let head = seq![TokenPattern::Exact(params[i])];
        assert(unparse_params(params.push(x), i) =~= (sep + head + unparse_params(params, i + 1))
            + comma + tail);
        assert(unparse_params(params, i) + comma + tail =~= (sep + head + unparse_params(
            params,
            i + 1,
        )) + comma + tail);
    }
}

/// Appending a top-level statement appends its rendering.
pub proof fn lemma_program_snoc(nodes: Seq<Node>, ids: Seq<usize>, x: usize)
    ensures
        unparse_program(nodes, ids.push(x), 0) == unparse_program(nodes, ids, 0) + unparse_stmt(
            nodes,
            x as int,
        ),
{
    lemma_program_snoc_from(nodes, ids, x, 0);
}

proof fn lemma_program_snoc_from(nodes: Seq<Node>, ids: Seq<usize>, x: usize, i: int)
    requires
        0 <= i <= ids.len(),
    ensures
        unparse_program(nodes, ids.push(x), i) == unparse_program(nodes, ids, i) + unparse_stmt(
            nodes,
            x as int,
        ),
    decreases ids.len() - i,
{
    let tail = unparse_stmt(nodes, x as int);
    if i == ids.len() {
        assert(unparse_program(nodes, ids.push(x), i + 1) =~= Seq::<TokenPattern>::empty());
        assert(unparse_program(nodes, ids.push(x), i) =~= tail);
        assert(unparse_program(nodes, ids, i) =~= Seq::<TokenPattern>::empty());
        assert(Seq::<TokenPattern>::empty() + tail =~= tail);
    } else {
        lemma_program_snoc_from(nodes, ids, x, i + 1);
        assert(ids.push(x)[i] == ids[i]);
        assert(unparse_stmt(nodes, ids[i] as int) + (unparse_program(nodes, ids, i + 1) + tail)
            =~= (unparse_stmt(nodes, ids[i] as int) + unparse_program(nodes, ids, i + 1)) + tail);
    }
}

/// Arena growth and a program list's rendering.
pub proof fn lemma_unparse_program_grows(
    nodes1: Seq<Node>,
    nodes2: Seq<Node>,
    ids: Seq<usize>,
    i: int,
)
    requires
        arena_extends(nodes2, nodes1),
        forall|j: int| 0 <= j < ids.len() ==> (#[trigger] ids[j]) < nodes1.len(),
    ensures
        unparse_program(nodes2, ids, i) == unparse_program(nodes1, ids, i),
    decreases ids.len() - i,
{
    if 0 <= i < ids.len() {
        lemma_unparse_grows(nodes1, nodes2, ids[i] as int);
        lemma_unparse_program_grows(nodes1, nodes2, ids, i + 1);
    }
}


/// When every id is below both bounds, the bound does not matter.
pub proof fn lemma_stmt_list_bound(nodes: Seq<Node>, ids: Seq<usize>, i: int, b1: int, b2: int)
    requires
        forall|j: int| 0 <= j < ids.len() ==> (#[trigger] ids[j]) < b1,
        b1 <= b2,
    ensures
        unparse_stmt_list(nodes, ids, i, b1) == unparse_stmt_list(nodes, ids, i, b2),
    decreases ids.len() - i,
{
    if 0 <= i < ids.len() {
        lemma_stmt_list_bound(nodes, ids, i + 1, b1, b2);
    }
}

/// When every id is below both bounds, the bound does not matter.
pub proof fn lemma_method_list_bound(nodes: Seq<Node>, ids: Seq<usize>, i: int, b1: int, b2: int)
    requires
        forall|j: int| 0 <= j < ids.len() ==> (#[trigger] ids[j]) < b1,
        b1 <= b2,
    ensures
        unparse_method_list(nodes, ids, i, b1) == unparse_method_list(nodes, ids, i, b2),
    decreases ids.len() - i,
{
    if 0 <= i < ids.len() {
        lemma_method_list_bound(nodes, ids, i + 1, b1, b2);
    }
}

/// When every id is below both bounds, the bound does not matter.
pub proof fn lemma_arg_list_bound(nodes: Seq<Node>, ids: Seq<usize>, i: int, b1: int, b2: int)
    requires
        forall|j: int| 0 <= j < ids.len() ==> (#[trigger] ids[j]) < b1,
        b1 <= b2,
    ensures
        unparse_arg_list(nodes, ids, i, b1) == unparse_arg_list(nodes, ids, i, b2),
    decreases ids.len() - i,
{
    if 0 <= i < ids.len() {
        lemma_arg_list_bound(nodes, ids, i + 1, b1, b2);
    }
}

/// The parser's state: the tokens, the cursor, and the arena built so far.
#[derive(Debug)]
pub struct Parser {
    pub tokens: Vec<Token>,
    pub pos: usize,
    pub nodes: Vec<Node>,
}

impl Parser {
    /// The cursor is in bounds and the arena is bottom-up ordered.
    pub open spec fn pwf(&self) -> bool {
        &&& self.pos <= self.tokens@.len()
        &&& wf_nodes(self.nodes@)
    }

    /// The kind of the token under the cursor; end-of-input when the cursor
    /// has run out.
    pub open spec fn peeked_kind(self) -> TokenKind {
        if self.pos < self.tokens@.len() {
            self.tokens@[self.pos as int].kind
        } else {
            TokenKind::Eof
        }
    }

    /// A parser at the start of `tokens`, with an empty arena.
    pub fn new(tokens: Vec<Token>) -> (r: Self)
        ensures
            r.pwf(),
            r.nodes@.len() == 0,
            r.tokens@ == tokens@,
            r.pos == 0,
    {
        Parser { tokens, pos: 0, nodes: Vec::new() }
    }

    fn peek_kind(&self) -> (r: TokenKind)
        ensures
            r == self.peeked_kind(),
    {
        if self.pos < self.tokens.len() {
            self.tokens[self.pos].kind
        } else {
            TokenKind::Eof
        }
    }

    /// The source line of the token under the cursor, for error reports.
    fn peek_line(&self) -> (r: usize) {
        if self.pos < self.tokens.len() {
            self.tokens[self.pos].line
        } else {
            0
        }
    }

    /// Consume and return the token under the cursor.
    fn bump(&mut self) -> (t: Token)
        requires
            old(self).pwf(),
            old(self).pos < old(self).tokens@.len(),
        ensures
            final(self).pwf(),
            final(self).tokens == old(self).tokens,
            final(self).nodes == old(self).nodes,
            final(self).pos == old(self).pos + 1,
            t == old(self).tokens@[old(self).pos as int],
    {
        // the list's length bounds the cursor, so the increment cannot overflow
        let n = self.tokens.len();
        let t = self.tokens[self.pos].clone();
        self.pos = self.pos + 1;
        t
    }

    /// Consume a token of the given kind, or fail with `err`.
    fn consume(&mut self, kind: TokenKind, err: ParserError) -> (r: Result<Token, ParserError>)
        requires
            old(self).pwf(),
            kind != TokenKind::Eof,
        ensures
            final(self).pwf(),
            final(self).tokens == old(self).tokens,
            final(self).nodes == old(self).nodes,
            match r {
                Ok(t) => old(self).pos < old(self).tokens@.len() && t == old(self).tokens@[
                    old(self).pos as int
                ] && t.kind == kind && final(self).pos == old(self).pos + 1,
                Err(_) => *final(self) == *old(self),
            },
    {
        if self.peek_kind() == kind {
            Ok(self.bump())
        } else {
            Err(err)
        }
    }

    /// Append an expression node; its children must already be in the
    /// arena.
    fn push_expr(&mut self, ex: Expr) -> (id: usize)
        requires
            old(self).pwf(),
            node_wf(Node::Expr(ex), old(self).nodes@.len() as int),
        ensures
            final(self).pwf(),
            final(self).tokens == old(self).tokens,
            final(self).pos == old(self).pos,
            final(self).nodes@ == old(self).nodes@.push(Node::Expr(ex)),
            arena_extends(final(self).nodes@, old(self).nodes@),
            id == old(self).nodes@.len(),
            id < final(self).nodes@.len(),
    {
        let id = self.nodes.len();
        self.nodes.push(Node::Expr(ex));
        proof {
            assert forall|i: int| 0 <= i < self.nodes@.len() implies node_wf(
                #[trigger] self.nodes@[i],
                i,
            ) by {
                if i < old(self).nodes@.len() {
                    assert(node_wf(old(self).nodes@[i], i));
                }
            }
        }
        id
    }

    /// Append a statement node; its children must already be in the arena.
    fn push_stmt(&mut self, st: Stmt) -> (id: usize)
        requires
            old(self).pwf(),
            node_wf(Node::Stmt(st), old(self).nodes@.len() as int),
        ensures
            final(self).pwf(),
            final(self).tokens == old(self).tokens,
            final(self).pos == old(self).pos,
            final(self).nodes@ == old(self).nodes@.push(Node::Stmt(st)),
            arena_extends(final(self).nodes@, old(self).nodes@),
            id == old(self).nodes@.len(),
            id < final(self).nodes@.len(),
    {
        let id = self.nodes.len();
        self.nodes.push(Node::Stmt(st));
        proof {
            assert forall|i: int| 0 <= i < self.nodes@.len() implies node_wf(
                #[trigger] self.nodes@[i],
                i,
            ) by {
                if i < old(self).nodes@.len() {
                    assert(node_wf(old(self).nodes@[i], i));
                }
            }
        }
        id
    }

    /// Parse one expression.  On success the produced node re-renders to
    /// exactly the consumed token span (`unparse_expr`).
    pub fn expression(&mut self) -> (r: Result<usize, ParserError>)
        requires
            old(self).pwf(),
        ensures
            final(self).pwf(),
            final(self).tokens == old(self).tokens,
            final(self).pos >= old(self).pos,
            arena_extends(final(self).nodes@, old(self).nodes@),
            match r {
                Ok(id) => id < final(self).nodes@.len() && final(self).pos > old(self).pos
                    && matches_span(
                    final(self).tokens@,
                    old(self).pos as int,
                    final(self).pos as int,
                    unparse_expr(final(self).nodes@, id as int),
                ),
                Err(_) => true,
            },
        decreases self.tokens@.len() - self.pos, 12int,
    {
        self.assignment()
    }

    /// Assignment (right-associative), or anything of higher precedence.
    fn assignment(&mut self) -> (r: Result<usize, ParserError>)
        requires
            old(self).pwf(),
        ensures
            final(self).pwf(),
            final(self).tokens == old(self).tokens,
            final(self).pos >= old(self).pos,
            arena_extends(final(self).nodes@, old(self).nodes@),
            match r {
                Ok(id) => id < final(self).nodes@.len() && final(self).pos > old(self).pos
                    && matches_span(
                    final(self).tokens@,
                    old(self).pos as int,
                    final(self).pos as int,
                    unparse_expr(final(self).nodes@, id as int),
                ),
                Err(_) => true,
            },
        decreases self.tokens@.len() - self.pos, 11int,
    {
        let ghost p0 = old(self).pos as int;
        let lhs = self.logic_or()?;
        let ghost nodes1 = self.nodes@;
        let ghost p1 = self.pos as int;
        if self.peek_kind() == TokenKind::Equal {
            let eq_line = self.peek_line();
            self.bump();
            let value = self.assignment()?;
            let ghost nodes2 = self.nodes@;
            let ghost p2 = self.pos as int;
            match &self.nodes[lhs] {
                Node::Expr(Expr::Variable(tok)) => {
                    let name = tok.clone();
                    let id = self.push_expr(Expr::Assignment { name, value });
                    proof {
                        let toks = self.tokens@;
                        lemma_unparse_grows(nodes2, self.nodes@, value as int);
                        assert(nodes2[lhs as int] == nodes1[lhs as int]);
                        assert(unparse_expr(nodes1, lhs as int) == seq![
                            TokenPattern::Exact(nodes1[lhs as int]->Expr_0->Variable_0),
                        ]);
                        assert(p1 == p0 + 1);
                        assert(pat_matches(
                            toks[p0],
                            TokenPattern::Exact(nodes1[lhs as int]->Expr_0->Variable_0),
                        )) by {
                            assert(unparse_expr(nodes1, lhs as int)[0] == TokenPattern::Exact(
                                nodes1[lhs as int]->Expr_0->Variable_0,
                            ));
                        }
                        assert(toks[p1].kind == TokenKind::Equal);
                        assert(matches_span(
                            toks,
                            p0,
                            p1 + 1,
                            seq![
                                TokenPattern::Exact(nodes1[lhs as int]->Expr_0->Variable_0),
                                TokenPattern::Just(TokenKind::Equal),
                            ],
                        ));
                        lemma_matches_concat(
                            toks,
                            p0,
                            p1 + 1,
                            p2,
                            seq![
                                TokenPattern::Exact(nodes1[lhs as int]->Expr_0->Variable_0),
                                TokenPattern::Just(TokenKind::Equal),
                            ],
                            unparse_expr(nodes2, value as int),
                        );
                        assert(unparse_expr(self.nodes@, id as int) == seq![
                            TokenPattern::Exact(nodes1[lhs as int]->Expr_0->Variable_0),
                            TokenPattern::Just(TokenKind::Equal),
                        ] + unparse_expr(nodes2, value as int));
                    }
                    Ok(id)
                },
                Node::Expr(Expr::FieldAccess { object, name }) => {
                    let object = *object;
                    let name = name.clone();
                    proof {
                        assert(node_wf(self.nodes@[lhs as int], lhs as int));
                    }
                    let id = self.push_expr(Expr::FieldSet { object, name, value });
                    proof {
                        let toks = self.tokens@;
                        lemma_extends_trans(nodes1, nodes2, self.nodes@);
                        assert(nodes2[lhs as int] == nodes1[lhs as int]);
                        let objpats = unparse_sub(nodes1, object as int, lhs as int);
                        let accpats = seq![
                            TokenPattern::Just(TokenKind::Dot),
                            TokenPattern::Exact(nodes1[lhs as int]->Expr_0->FieldAccess_name),
                        ];
                        assert(unparse_expr(nodes1, lhs as int) == objpats + accpats);
                        lemma_matches_split(toks, p0, p1, objpats, accpats);
                        let m = p0 + objpats.len();
                        assert(matches_span(toks, m, p1, accpats));
                        assert(matches_span(
                            toks,
                            p1,
                            p1 + 1,
                            seq![TokenPattern::Just(TokenKind::Equal)],
                        ));
                        lemma_matches_concat(
                            toks,
                            m,
                            p1,
                            p1 + 1,
                            accpats,
                            seq![TokenPattern::Just(TokenKind::Equal)],
                        );
                        lemma_matches_concat(
                            toks,
                            p0,
                            m,
                            p1 + 1,
                            objpats,
                            accpats + seq![TokenPattern::Just(TokenKind::Equal)],
                        );
                        lemma_matches_concat(
                            toks,
                            p0,
                            p1 + 1,
                            p2,
                            objpats + (accpats + seq![TokenPattern::Just(TokenKind::Equal)]),
                            unparse_expr(nodes2, value as int),
                        );
                        lemma_unparse_grows(nodes2, self.nodes@, value as int);
                        lemma_unparse_sub_grows(nodes1, self.nodes@, object as int, lhs as int);
                        assert(unparse_sub(self.nodes@, object as int, id as int) == unparse_sub(
                            self.nodes@,
                            object as int,
                            lhs as int,
                        ));
                        assert(unparse_expr(self.nodes@, id as int) =~= objpats + (accpats + seq![
                            TokenPattern::Just(TokenKind::Equal),
                        ]) + unparse_expr(nodes2, value as int));
                    }
                    Ok(id)
                },
                _ => Err(ParserError::InvalidAssignmentTarget(eq_line)),
            }
        } else {
            Ok(lhs)
        }
    }

    /// Short-circuiting `or`.
    fn logic_or(&mut self) -> (r: Result<usize, ParserError>)
        requires
            old(self).pwf(),
        ensures
            final(self).pwf(),
            final(self).tokens == old(self).tokens,
            final(self).pos >= old(self).pos,
            arena_extends(final(self).nodes@, old(self).nodes@),
            match r {
                Ok(id) => id < final(self).nodes@.len() && final(self).pos > old(self).pos
                    && matches_span(
                    final(self).tokens@,
                    old(self).pos as int,
                    final(self).pos as int,
                    unparse_expr(final(self).nodes@, id as int),
                ),
                Err(_) => true,
            },
        decreases self.tokens@.len() - self.pos, 10int,
    {
        let ghost p0 = old(self).pos as int;
        let mut lhs = self.logic_and()?;
        while self.peek_kind() == TokenKind::Or
            invariant
                self.pwf(),
                self.tokens == old(self).tokens,
                self.pos > old(self).pos,
                arena_extends(self.nodes@, old(self).nodes@),
                lhs < self.nodes@.len(),
                p0 == old(self).pos,
                matches_span(
                    self.tokens@,
                    p0,
                    self.pos as int,
                    unparse_expr(self.nodes@, lhs as int),
                ),
            decreases self.tokens@.len() - self.pos,
        {
            let ghost lhs0 = lhs as int;
            let ghost nodes1 = self.nodes@;
            let ghost p1 = self.pos as int;
            let operator = self.bump();
            let rhs = self.logic_and()?;
            let ghost nodes2 = self.nodes@;
            let ghost p2 = self.pos as int;
            lhs = self.push_expr(Expr::Logical { left: lhs, operator, right: rhs });
            proof {
                let toks = self.tokens@;
                let a = unparse_expr(nodes1, lhs0);
                lemma_unparse_grows(nodes1, self.nodes@, lhs0);
                lemma_unparse_grows(nodes2, self.nodes@, rhs as int);
                assert(matches_span(toks, p1, p1 + 1, seq![TokenPattern::Exact(operator)]));
                lemma_matches_concat(toks, p0, p1, p1 + 1, a, seq![TokenPattern::Exact(operator)]);
                lemma_matches_concat(
                    toks,
                    p0,
                    p1 + 1,
                    p2,
                    a + seq![TokenPattern::Exact(operator)],
                    unparse_expr(nodes2, rhs as int),
                );
                assert(unparse_expr(self.nodes@, lhs as int) == a + seq![
                    TokenPattern::Exact(operator),
                ] + unparse_expr(nodes2, rhs as int));
            }
        }
        Ok(lhs)
    }

    /// Short-circuiting `and`.
    fn logic_and(&mut self) -> (r: Result<usize, ParserError>)
        requires
            old(self).pwf(),
        ensures
            final(self).pwf(),
            final(self).tokens == old(self).tokens,
            final(self).pos >= old(self).pos,
            arena_extends(final(self).nodes@, old(self).nodes@),
            match r {
                Ok(id) => id < final(self).nodes@.len() && final(self).pos > old(self).pos
                    && matches_span(
                    final(self).tokens@,
                    old(self).pos as int,
                    final(self).pos as int,
                    unparse_expr(final(self).nodes@, id as int),
                ),
                Err(_) => true,
            },
        decreases self.tokens@.len() - self.pos, 9int,
    {
        let ghost p0 = old(self).pos as int;
        let mut lhs = self.equality()?;
        while self.peek_kind() == TokenKind::And
            invariant
                self.pwf(),
                self.tokens == old(self).tokens,
                self.pos > old(self).pos,
                arena_extends(self.nodes@, old(self).nodes@),
                lhs < self.nodes@.len(),
                p0 == old(self).pos,
                matches_span(
                    self.tokens@,
                    p0,
                    self.pos as int,
                    unparse_expr(self.nodes@, lhs as int),
                ),
            decreases self.tokens@.len() - self.pos,
        {
            let ghost lhs0 = lhs as int;
            let ghost nodes1 = self.nodes@;
            let ghost p1 = self.pos as int;
            let operator = self.bump();
            let rhs = self.equality()?;
            let ghost nodes2 = self.nodes@;
            let ghost p2 = self.pos as int;
            lhs = self.push_expr(Expr::Logical { left: lhs, operator, right: rhs });
            proof {
                let toks = self.tokens@;
                let a = unparse_expr(nodes1, lhs0);
                lemma_unparse_grows(nodes1, self.nodes@, lhs0);
                lemma_unparse_grows(nodes2, self.nodes@, rhs as int);
                assert(matches_span(toks, p1, p1 + 1, seq![TokenPattern::Exact(operator)]));
                lemma_matches_concat(toks, p0, p1, p1 + 1, a, seq![TokenPattern::Exact(operator)]);
                lemma_matches_concat(
                    toks,
                    p0,
                    p1 + 1,
                    p2,
                    a + seq![TokenPattern::Exact(operator)],
                    unparse_expr(nodes2, rhs as int),
                );
                assert(unparse_expr(self.nodes@, lhs as int) == a + seq![
                    TokenPattern::Exact(operator),
                ] + unparse_expr(nodes2, rhs as int));
            }
        }
        Ok(lhs)
    }

    /// `==` and `!=`.
    fn equality(&mut self) -> (r: Result<usize, ParserError>)
        requires
            old(self).pwf(),
        ensures
            final(self).pwf(),
            final(self).tokens == old(self).tokens,
            final(self).pos >= old(self).pos,
            arena_extends(final(self).nodes@, old(self).nodes@),
            match r {
                Ok(id) => id < final(self).nodes@.len() && final(self).pos > old(self).pos
                    && matches_span(
                    final(self).tokens@,
                    old(self).pos as int,
                    final(self).pos as int,
                    unparse_expr(final(self).nodes@, id as int),
                ),
                Err(_) => true,
            },
        decreases self.tokens@.len() - self.pos, 8int,
    {
        let ghost p0 = old(self).pos as int;
        let mut lhs = self.comparison()?;
        while self.peek_kind() == TokenKind::EqualEqual || self.peek_kind()
            == TokenKind::BangEqual
            invariant
                self.pwf(),
                self.tokens == old(self).tokens,
                self.pos > old(self).pos,
                arena_extends(self.nodes@, old(self).nodes@),
                lhs < self.nodes@.len(),
                p0 == old(self).pos,
                matches_span(
                    self.tokens@,
                    p0,
                    self.pos as int,
                    unparse_expr(self.nodes@, lhs as int),
                ),
            decreases self.tokens@.len() - self.pos,
        {
            let ghost lhs0 = lhs as int;
            let ghost nodes1 = self.nodes@;
            let ghost p1 = self.pos as int;
            let operator = self.bump();
            let rhs = self.comparison()?;
            let ghost nodes2 = self.nodes@;
            let ghost p2 = self.pos as int;
            lhs = self.push_expr(Expr::Binary { left: lhs, operator, right: rhs });
            proof {
                let toks = self.tokens@;
                let a = unparse_expr(nodes1, lhs0);
                lemma_unparse_grows(nodes1, self.nodes@, lhs0);
                lemma_unparse_grows(nodes2, self.nodes@, rhs as int);
                assert(matches_span(toks, p1, p1 + 1, seq![TokenPattern::Exact(operator)]));
                lemma_matches_concat(toks, p0, p1, p1 + 1, a, seq![TokenPattern::Exact(operator)]);
                lemma_matches_concat(
                    toks,
                    p0,
                    p1 + 1,
                    p2,
                    a + seq![TokenPattern::Exact(operator)],
                    unparse_expr(nodes2, rhs as int),
                );
                assert(unparse_expr(self.nodes@, lhs as int) == a + seq![
                    TokenPattern::Exact(operator),
                ] + unparse_expr(nodes2, rhs as int));
            }
        }
        Ok(lhs)
    }

    /// `<`, `<=`, `>`, `>=`.
    fn comparison(&mut self) -> (r: Result<usize, ParserError>)
        requires
            old(self).pwf(),
        ensures
            final(self).pwf(),
            final(self).tokens == old(self).tokens,
            final(self).pos >= old(self).pos,
            arena_extends(final(self).nodes@, old(self).nodes@),
            match r {
                Ok(id) => id < final(self).nodes@.len() && final(self).pos > old(self).pos
                    && matches_span(
                    final(self).tokens@,
                    old(self).pos as int,
                    final(self).pos as int,
                    unparse_expr(final(self).nodes@, id as int),
                ),
                Err(_) => true,
            },
        decreases self.tokens@.len() - self.pos, 7int,
    {
        let ghost p0 = old(self).pos as int;
        let mut lhs = self.range_expr()?;
        while self.peek_kind() == TokenKind::Greater || self.peek_kind()
            == TokenKind::GreaterEqual || self.peek_kind() == TokenKind::Less || self.peek_kind()
            == TokenKind::LessEqual
            invariant
                self.pwf(),
                self.tokens == old(self).tokens,
                self.pos > old(self).pos,
                arena_extends(self.nodes@, old(self).nodes@),
                lhs < self.nodes@.len(),
                p0 == old(self).pos,
                matches_span(
                    self.tokens@,
                    p0,
                    self.pos as int,
                    unparse_expr(self.nodes@, lhs as int),
                ),
            decreases self.tokens@.len() - self.pos,
        {
            let ghost lhs0 = lhs as int;
            let ghost nodes1 = self.nodes@;
            let ghost p1 = self.pos as int;
            let operator = self.bump();
            let rhs = self.range_expr()?;
            let ghost nodes2 = self.nodes@;
            let ghost p2 = self.pos as int;
            lhs = self.push_expr(Expr::Binary { left: lhs, operator, right: rhs });
            proof {
                let toks = self.tokens@;
                let a = unparse_expr(nodes1, lhs0);
                lemma_unparse_grows(nodes1, self.nodes@, lhs0);
                lemma_unparse_grows(nodes2, self.nodes@, rhs as int);
                assert(matches_span(toks, p1, p1 + 1, seq![TokenPattern::Exact(operator)]));
                lemma_matches_concat(toks, p0, p1, p1 + 1, a, seq![TokenPattern::Exact(operator)]);
                lemma_matches_concat(
                    toks,
                    p0,
                    p1 + 1,
                    p2,
                    a + seq![TokenPattern::Exact(operator)],
                    unparse_expr(nodes2, rhs as int),
                );
                assert(unparse_expr(self.nodes@, lhs as int) == a + seq![
                    TokenPattern::Exact(operator),
                ] + unparse_expr(nodes2, rhs as int));
            }
        }
        Ok(lhs)
    }

    /// The range operator `a..b` (not chained).
    fn range_expr(&mut self) -> (r: Result<usize, ParserError>)
        requires
            old(self).pwf(),
        ensures
            final(self).pwf(),
            final(self).tokens == old(self).tokens,
            final(self).pos >= old(self).pos,
            arena_extends(final(self).nodes@, old(self).nodes@),
            match r {
                Ok(id) => id < final(self).nodes@.len() && final(self).pos > old(self).pos
                    && matches_span(
                    final(self).tokens@,
                    old(self).pos as int,
                    final(self).pos as int,
                    unparse_expr(final(self).nodes@, id as int),
                ),
                Err(_) => true,
            },
        decreases self.tokens@.len() - self.pos, 6int,
    {
        let ghost p0 = old(self).pos as int;
        let lhs = self.term()?;
        let ghost nodes1 = self.nodes@;
        let ghost p1 = self.pos as int;
        if self.peek_kind() == TokenKind::DotDot {
            let operator = self.bump();
            let rhs = self.term()?;
            let ghost nodes2 = self.nodes@;
            let ghost p2 = self.pos as int;
            let id = self.push_expr(Expr::Binary { left: lhs, operator, right: rhs });
            proof {
                let toks = self.tokens@;
                let a = unparse_expr(nodes1, lhs as int);
                lemma_unparse_grows(nodes1, self.nodes@, lhs as int);
                lemma_unparse_grows(nodes2, self.nodes@, rhs as int);
                assert(matches_span(toks, p1, p1 + 1, seq![TokenPattern::Exact(operator)]));
                lemma_matches_concat(toks, p0, p1, p1 + 1, a, seq![TokenPattern::Exact(operator)]);
                lemma_matches_concat(
                    toks,
                    p0,
                    p1 + 1,
                    p2,
                    a + seq![TokenPattern::Exact(operator)],
                    unparse_expr(nodes2, rhs as int),
                );
                assert(unparse_expr(self.nodes@, id as int) == a + seq![
                    TokenPattern::Exact(operator),
                ] + unparse_expr(nodes2, rhs as int));
            }
            Ok(id)
        } else {
            Ok(lhs)
        }
    }

    /// `+` and `-`.
    fn term(&mut self) -> (r: Result<usize, ParserError>)
        requires
            old(self).pwf(),
        ensures
            final(self).pwf(),
            final(self).tokens == old(self).tokens,
            final(self).pos >= old(self).pos,
            arena_extends(final(self).nodes@, old(self).nodes@),
            match r {
                Ok(id) => id < final(self).nodes@.len() && final(self).pos > old(self).pos
                    && matches_span(
                    final(self).tokens@,
                    old(self).pos as int,
                    final(self).pos as int,
                    unparse_expr(final(self).nodes@, id as int),
                ),
                Err(_) => true,
            },
        decreases self.tokens@.len() - self.pos, 5int,
    {
        let ghost p0 = old(self).pos as int;
        let mut lhs = self.factor()?;
        while self.peek_kind() == TokenKind::Plus || self.peek_kind() == TokenKind::Minus
            invariant
                self.pwf(),
                self.tokens == old(self).tokens,
                self.pos > old(self).pos,
                arena_extends(self.nodes@, old(self).nodes@),
                lhs < self.nodes@.len(),
                p0 == old(self).pos,
                matches_span(
                    self.tokens@,
                    p0,
                    self.pos as int,
                    unparse_expr(self.nodes@, lhs as int),
                ),
            decreases self.tokens@.len() - self.pos,
        {
            let ghost lhs0 = lhs as int;
            let ghost nodes1 = self.nodes@;
            let ghost p1 = self.pos as int;
            let operator = self.bump();
            let rhs = self.factor()?;
            let ghost nodes2 = self.nodes@;
            let ghost p2 = self.pos as int;
            lhs = self.push_expr(Expr::Binary { left: lhs, operator, right: rhs });
            proof {
                let toks = self.tokens@;
                let a = unparse_expr(nodes1, lhs0);
                lemma_unparse_grows(nodes1, self.nodes@, lhs0);
                lemma_unparse_grows(nodes2, self.nodes@, rhs as int);
                assert(matches_span(toks, p1, p1 + 1, seq![TokenPattern::Exact(operator)]));
                lemma_matches_concat(toks, p0, p1, p1 + 1, a, seq![TokenPattern::Exact(operator)]);
                lemma_matches_concat(
                    toks,
                    p0,
                    p1 + 1,
                    p2,
                    a + seq![TokenPattern::Exact(operator)],
                    unparse_expr(nodes2, rhs as int),
                );
                assert(unparse_expr(self.nodes@, lhs as int) == a + seq![
                    TokenPattern::Exact(operator),
                ] + unparse_expr(nodes2, rhs as int));
            }
        }
        Ok(lhs)
    }

    /// `*` and `/`.
    fn factor(&mut self) -> (r: Result<usize, ParserError>)
        requires
            old(self).pwf(),
        ensures
            final(self).pwf(),
            final(self).tokens == old(self).tokens,
            final(self).pos >= old(self).pos,
            arena_extends(final(self).nodes@, old(self).nodes@),
            match r {
                Ok(id) => id < final(self).nodes@.len() && final(self).pos > old(self).pos
                    && matches_span(
                    final(self).tokens@,
                    old(self).pos as int,
                    final(self).pos as int,
                    unparse_expr(final(self).nodes@, id as int),
                ),
                Err(_) => true,
            },
        decreases self.tokens@.len() - self.pos, 4int,
    {
        let ghost p0 = old(self).pos as int;
        let mut lhs = self.unary()?;
        while self.peek_kind() == TokenKind::Star || self.peek_kind() == TokenKind::Slash
            invariant
                self.pwf(),
                self.tokens == old(self).tokens,
                self.pos > old(self).pos,
                arena_extends(self.nodes@, old(self).nodes@),
                lhs < self.nodes@.len(),
                p0 == old(self).pos,
                matches_span(
                    self.tokens@,
                    p0,
                    self.pos as int,
                    unparse_expr(self.nodes@, lhs as int),
                ),
            decreases self.tokens@.len() - self.pos,
        {
            let ghost lhs0 = lhs as int;
            let ghost nodes1 = self.nodes@;
            let ghost p1 = self.pos as int;
            let operator = self.bump();
            let rhs = self.unary()?;
            let ghost nodes2 = self.nodes@;
            let ghost p2 = self.pos as int;
            lhs = self.push_expr(Expr::Binary { left: lhs, operator, right: rhs });
            proof {
                let toks = self.tokens@;
                let a = unparse_expr(nodes1, lhs0);
                lemma_unparse_grows(nodes1, self.nodes@, lhs0);
                lemma_unparse_grows(nodes2, self.nodes@, rhs as int);
                assert(matches_span(toks, p1, p1 + 1, seq![TokenPattern::Exact(operator)]));
                lemma_matches_concat(toks, p0, p1, p1 + 1, a, seq![TokenPattern::Exact(operator)]);
                lemma_matches_concat(
                    toks,
                    p0,
                    p1 + 1,
                    p2,
                    a + seq![TokenPattern::Exact(operator)],
                    unparse_expr(nodes2, rhs as int),
                );
                assert(unparse_expr(self.nodes@, lhs as int) == a + seq![
                    TokenPattern::Exact(operator),
                ] + unparse_expr(nodes2, rhs as int));
            }
        }
        Ok(lhs)
    }

    /// Prefix `!` and `-`.
    fn unary(&mut self) -> (r: Result<usize, ParserError>)
        requires
            old(self).pwf(),
        ensures
            final(self).pwf(),
            final(self).tokens == old(self).tokens,
            final(self).pos >= old(self).pos,
            arena_extends(final(self).nodes@, old(self).nodes@),
            match r {
                Ok(id) => id < final(self).nodes@.len() && final(self).pos > old(self).pos
                    && matches_span(
                    final(self).tokens@,
                    old(self).pos as int,
                    final(self).pos as int,
                    unparse_expr(final(self).nodes@, id as int),
                ),
                Err(_) => true,
            },
        decreases self.tokens@.len() - self.pos, 3int,
    {
        let ghost p0 = old(self).pos as int;
        if self.peek_kind() == TokenKind::Bang || self.peek_kind() == TokenKind::Minus {
            let operator = self.bump();
            let right = self.unary()?;
            let ghost nodes2 = self.nodes@;
            let ghost p2 = self.pos as int;
            let id = self.push_expr(Expr::Unary { operator, right });
            proof {
                let toks = self.tokens@;
                lemma_unparse_grows(nodes2, self.nodes@, right as int);
                assert(matches_span(toks, p0, p0 + 1, seq![TokenPattern::Exact(operator)]));
                lemma_matches_concat(
                    toks,
                    p0,
                    p0 + 1,
                    p2,
                    seq![TokenPattern::Exact(operator)],
                    unparse_expr(nodes2, right as int),
                );
                assert(unparse_expr(self.nodes@, id as int) == seq![
                    TokenPattern::Exact(operator),
                ] + unparse_expr(nodes2, right as int));
            }
            Ok(id)
        } else {
            self.call_expr()
        }
    }

    /// Postfix call `f(args)` and field access `obj.field`, chained.
    fn call_expr(&mut self) -> (r: Result<usize, ParserError>)
        requires
            old(self).pwf(),
        ensures
            final(self).pwf(),
            final(self).tokens == old(self).tokens,
            final(self).pos >= old(self).pos,
            arena_extends(final(self).nodes@, old(self).nodes@),
            match r {
                Ok(id) => id < final(self).nodes@.len() && final(self).pos > old(self).pos
                    && matches_span(
                    final(self).tokens@,
                    old(self).pos as int,
                    final(self).pos as int,
                    unparse_expr(final(self).nodes@, id as int),
                ),
                Err(_) => true,
            },
        decreases self.tokens@.len() - self.pos, 2int,
    {
        let ghost p0 = old(self).pos as int;
        let mut e = self.primary()?;
        while self.peek_kind() == TokenKind::LeftParen || self.peek_kind() == TokenKind::Dot
            invariant
                self.pwf(),
                self.tokens == old(self).tokens,
                self.pos > old(self).pos,
                arena_extends(self.nodes@, old(self).nodes@),
                e < self.nodes@.len(),
                p0 == old(self).pos,
                matches_span(
                    self.tokens@,
                    p0,
                    self.pos as int,
                    unparse_expr(self.nodes@, e as int),
                ),
            decreases self.tokens@.len() - self.pos,
        {
            let ghost pos_it = self.pos;
            let ghost e0 = e as int;
            let ghost nodes1 = self.nodes@;
            let ghost p1 = self.pos as int;
            if self.peek_kind() == TokenKind::LeftParen {
                let paren = self.bump();
                let mut args: Vec<usize> = Vec::new();
                let ghost mut argpats: Seq<TokenPattern> = Seq::empty();
                proof {
                    assert(unparse_arg_list(self.nodes@, args@, 0, self.nodes@.len() as int)
                        =~= argpats);
                    assert(matches_span(self.tokens@, p1 + 1, self.pos as int, argpats));
                }
                if self.peek_kind() != TokenKind::RightParen {
                    let ghost na = self.nodes@;
                    let ghost pa = self.pos as int;
                    let first = self.expression()?;
                    proof {
                        lemma_arg_list_snoc(self.nodes@, args@, first, self.nodes@.len() as int);
                        argpats = unparse_expr(self.nodes@, first as int);
                        assert(unparse_arg_list(
                            self.nodes@,
                            args@.push(first),
                            0,
                            self.nodes@.len() as int,
                        ) =~= argpats);
                    }
                    args.push(first);
                    while self.peek_kind() == TokenKind::Comma
                        invariant
                            self.pwf(),
                            self.tokens == old(self).tokens,
                            self.pos > old(self).pos,
                            self.pos > pos_it,
                            self.pos > p1 + 1,
                            arena_extends(self.nodes@, old(self).nodes@),
                            arena_extends(self.nodes@, nodes1),
                            e < self.nodes@.len(),
                            e == e0,
                            args@.len() > 0,
                            forall|j: int|
                                0 <= j < args@.len() ==> (#[trigger] args@[j])
                                    < self.nodes@.len(),
                            argpats == unparse_arg_list(
                                self.nodes@,
                                args@,
                                0,
                                self.nodes@.len() as int,
                            ),
                            matches_span(self.tokens@, p1 + 1, self.pos as int, argpats),
                        decreases self.tokens@.len() - self.pos,
                    {
                        let ghost nb = self.nodes@;
                        let ghost pb = self.pos as int;
                        self.bump();
                        let next = self.expression()?;
                        let ghost nc = self.nodes@;
                        let ghost pc = self.pos as int;
                        proof {
                            let toks = self.tokens@;
                            lemma_arg_list_bound(nc, args@, 0, nb.len() as int, nc.len() as int);
                            lemma_unparse_arg_list_grows(nb, nc, args@, 0, nb.len() as int);
                            assert(unparse_arg_list(nc, args@, 0, nc.len() as int) == argpats);
                            assert(matches_span(
                                toks,
                                pb,
                                pb + 1,
                                seq![TokenPattern::Just(TokenKind::Comma)],
                            ));
                            lemma_matches_concat(
                                toks,
                                p1 + 1,
                                pb,
                                pb + 1,
                                argpats,
                                seq![TokenPattern::Just(TokenKind::Comma)],
                            );
                            lemma_matches_concat(
                                toks,
                                p1 + 1,
                                pb + 1,
                                pc,
                                argpats + seq![TokenPattern::Just(TokenKind::Comma)],
                                unparse_expr(nc, next as int),
                            );
                            lemma_arg_list_snoc(nc, args@, next, nc.len() as int);
                            argpats = unparse_arg_list(nc, args@.push(next), 0, nc.len() as int);
                            assert(argpats =~= unparse_arg_list(nc, args@, 0, nc.len() as int)
                                + seq![TokenPattern::Just(TokenKind::Comma)] + unparse_expr(
                                nc,
                                next as int,
                            ));
                            assert(matches_span(toks, p1 + 1, pc, argpats));
                        }
                        args.push(next);
                    }
                }
                let ghost nodes3 = self.nodes@;
                let ghost p3 = self.pos as int;
                let close_line = self.peek_line();
                match self.consume(
                    TokenKind::RightParen,
                    ParserError::UnclosedGrouping(close_line),
                ) {
                    Ok(_) => {},
                    Err(er) => {
                        return Err(er);
                    },
                }
                e = self.push_expr(Expr::Call { callee: e, paren, args });
                proof {
                    let toks = self.tokens@;
                    let a = unparse_expr(nodes1, e0);
                    lemma_extends_trans(nodes1, nodes3, self.nodes@);
                    lemma_unparse_grows(nodes1, self.nodes@, e0);
                    assert(matches_span(toks, p1, p1 + 1, seq![TokenPattern::Exact(paren)]));
                    lemma_matches_concat(toks, p0, p1, p1 + 1, a, seq![TokenPattern::Exact(paren)]);
                    lemma_matches_concat(
                        toks,
                        p0,
                        p1 + 1,
                        p3,
                        a + seq![TokenPattern::Exact(paren)],
                        argpats,
                    );
                    assert(matches_span(
                        toks,
                        p3,
                        p3 + 1,
                        seq![TokenPattern::Just(TokenKind::RightParen)],
                    ));
                    lemma_matches_concat(
                        toks,
                        p0,
                        p3,
                        p3 + 1,
                        a + seq![TokenPattern::Exact(paren)] + argpats,
                        seq![TokenPattern::Just(TokenKind::RightParen)],
                    );
                    let fin = self.nodes@;
                    let eid = e as int;
                    let argids = fin[eid]->Expr_0->Call_args;
                    lemma_arg_list_bound(fin, argids@, 0, nodes3.len() as int, eid);
                    lemma_unparse_arg_list_grows(nodes3, fin, argids@, 0, nodes3.len() as int);
                    assert(unparse_arg_list(fin, argids@, 0, eid) == argpats);
                    assert(unparse_expr(fin, eid) == a + seq![TokenPattern::Exact(paren)]
                        + argpats + seq![TokenPattern::Just(TokenKind::RightParen)]);
                }
            } else {
                self.bump();
                let name_line = self.peek_line();
                let name = match self.consume(
                    TokenKind::Identifier,
                    ParserError::InvalidVariableName(name_line),
                ) {
                    Ok(t) => t,
                    Err(er) => {
                        return Err(er);
                    },
                };
                e = self.push_expr(Expr::FieldAccess { object: e, name });
                proof {
                    let toks = self.tokens@;
                    let a = unparse_expr(nodes1, e0);
                    lemma_unparse_grows(nodes1, self.nodes@, e0);
                    assert(matches_span(
                        toks,
                        p1,
                        p1 + 2,
                        seq![
                            TokenPattern::Just(TokenKind::Dot),
                            TokenPattern::Exact(toks[p1 + 1]),
                        ],
                    ));
                    lemma_matches_concat(
                        toks,
                        p0,
                        p1,
                        p1 + 2,
                        a,
                        seq![
                            TokenPattern::Just(TokenKind::Dot),
                            TokenPattern::Exact(toks[p1 + 1]),
                        ],
                    );
                    assert(unparse_expr(self.nodes@, e as int) == a + seq![
                        TokenPattern::Just(TokenKind::Dot),
                        TokenPattern::Exact(toks[p1 + 1]),
                    ]);
                }
            }
        }
        Ok(e)
    }

    /// A primary expression: a literal, a variable, a grouping, a block, or
    /// one of the control-flow forms (which are expressions here).
    fn primary(&mut self) -> (r: Result<usize, ParserError>)
        requires
            old(self).pwf(),
        ensures
            final(self).pwf(),
            final(self).tokens == old(self).tokens,
            final(self).pos >= old(self).pos,
            arena_extends(final(self).nodes@, old(self).nodes@),
            match r {
                Ok(id) => id < final(self).nodes@.len() && final(self).pos > old(self).pos
                    && matches_span(
                    final(self).tokens@,
                    old(self).pos as int,
                    final(self).pos as int,
                    unparse_expr(final(self).nodes@, id as int),
                ),
                Err(_) => true,
            },
        decreases self.tokens@.len() - self.pos, 1int,
    {
        let ghost p0 = old(self).pos as int;
        let line = self.peek_line();
        match self.peek_kind() {
            TokenKind::Literal => {
                let t = self.bump();
                match &t.literal {
                    LiteralValue::Integer(n) => {
                        let id = self.push_expr(Expr::Literal(LiteralExpr::Integer(*n)));
                        proof {
                            assert(pat_matches(
                                self.tokens@[p0],
                                TokenPattern::Lit(LiteralValue::Integer(t.literal->Integer_0)),
                            ));
                            assert(matches_span(
                                self.tokens@,
                                p0,
                                p0 + 1,
                                unparse_expr(self.nodes@, id as int),
                            ));
                        }
                        Ok(id)
                    },
                    LiteralValue::Str(st) => {
                        let id = self.push_expr(Expr::Literal(LiteralExpr::Str(st.clone())));
                        proof {
                            assert(pat_matches(
                                self.tokens@[p0],
                                TokenPattern::Lit(LiteralValue::Str(t.literal->Str_0)),
                            ));
                            assert(matches_span(
                                self.tokens@,
                                p0,
                                p0 + 1,
                                unparse_expr(self.nodes@, id as int),
                            ));
                        }
                        Ok(id)
                    },
                    LiteralValue::Absent => Err(ParserError::MalformedLiteral(line)),
                }
            },
            TokenKind::True => {
                self.bump();
                let id = self.push_expr(Expr::Literal(LiteralExpr::Bool(true)));
                proof {
                    assert(matches_span(
                        self.tokens@,
                        p0,
                        p0 + 1,
                        unparse_expr(self.nodes@, id as int),
                    ));
                }
                Ok(id)
            },
            TokenKind::False => {
                self.bump();
                let id = self.push_expr(Expr::Literal(LiteralExpr::Bool(false)));
                proof {
                    assert(matches_span(
                        self.tokens@,
                        p0,
                        p0 + 1,
                        unparse_expr(self.nodes@, id as int),
                    ));
                }
                Ok(id)
            },
            TokenKind::Identifier => {
                let t = self.bump();
                let id = self.push_expr(Expr::Variable(t));
                proof {
                    assert(matches_span(
                        self.tokens@,
                        p0,
                        p0 + 1,
                        unparse_expr(self.nodes@, id as int),
                    ));
                }
                Ok(id)
            },
            TokenKind::This => {
                let t = self.bump();
                let id = self.push_expr(Expr::Variable(t));
                proof {
                    assert(matches_span(
                        self.tokens@,
                        p0,
                        p0 + 1,
                        unparse_expr(self.nodes@, id as int),
                    ));
                }
                Ok(id)
            },
            TokenKind::LeftParen => {
                self.bump();
                let inner = self.expression()?;
                let ghost nodes1 = self.nodes@;
                let ghost p1 = self.pos as int;
                let close_line = self.peek_line();
                match self.consume(
                    TokenKind::RightParen,
                    ParserError::UnclosedGrouping(close_line),
                ) {
                    Ok(_) => {},
                    Err(er) => {
                        return Err(er);
                    },
                }
                let id = self.push_expr(Expr::Group(inner));
                proof {
                    let toks = self.tokens@;
                    lemma_unparse_grows(nodes1, self.nodes@, inner as int);
                    assert(matches_span(
                        toks,
                        p0,
                        p0 + 1,
                        seq![TokenPattern::Just(TokenKind::LeftParen)],
                    ));
                    lemma_matches_concat(
                        toks,
                        p0,
                        p0 + 1,
                        p1,
                        seq![TokenPattern::Just(TokenKind::LeftParen)],
                        unparse_expr(nodes1, inner as int),
                    );
                    assert(matches_span(
                        toks,
                        p1,
                        p1 + 1,
                        seq![TokenPattern::Just(TokenKind::RightParen)],
                    ));
                    lemma_matches_concat(
                        toks,
                        p0,
                        p1,
                        p1 + 1,
                        seq![TokenPattern::Just(TokenKind::LeftParen)] + unparse_expr(
                            nodes1,
                            inner as int,
                        ),
                        seq![TokenPattern::Just(TokenKind::RightParen)],
                    );
                    assert(unparse_expr(self.nodes@, id as int) == seq![
                        TokenPattern::Just(TokenKind::LeftParen),
                    ] + unparse_expr(nodes1, inner as int) + seq![
                        TokenPattern::Just(TokenKind::RightParen),
                    ]);
                }
                Ok(id)
            },
            TokenKind::LeftCurly => self.block(),
            TokenKind::If => {
                self.bump();
                let condition = self.expression()?;
                let ghost nodes1 = self.nodes@;
                let ghost p1 = self.pos as int;
                let then_branch = self.block()?;
                let ghost nodes2 = self.nodes@;
                let ghost p2 = self.pos as int;
                let else_branch = if self.peek_kind() == TokenKind::Else {
                    self.bump();
                    Some(self.primary()?)
                } else {
                    None
                };
                let ghost nodes3 = self.nodes@;
                let ghost p3 = self.pos as int;
                let id = self.push_expr(Expr::If { condition, then_branch, else_branch });
                proof {
                    let toks = self.tokens@;
                    lemma_unparse_grows(nodes1, self.nodes@, condition as int);
                    lemma_unparse_grows(nodes2, self.nodes@, then_branch as int);
                    assert(matches_span(
                        toks,
                        p0,
                        p0 + 1,
                        seq![TokenPattern::Just(TokenKind::If)],
                    ));
                    lemma_matches_concat(
                        toks,
                        p0,
                        p0 + 1,
                        p1,
                        seq![TokenPattern::Just(TokenKind::If)],
                        unparse_expr(nodes1, condition as int),
                    );
                    lemma_matches_concat(
                        toks,
                        p0,
                        p1,
                        p2,
                        seq![TokenPattern::Just(TokenKind::If)] + unparse_expr(
                            nodes1,
                            condition as int,
                        ),
                        unparse_expr(nodes2, then_branch as int),
                    );
                    let front = seq![TokenPattern::Just(TokenKind::If)] + unparse_expr(
                        nodes1,
                        condition as int,
                    ) + unparse_expr(nodes2, then_branch as int);
                    match else_branch {
                        Some(eb) => {
                            lemma_unparse_grows(nodes3, self.nodes@, eb as int);
                            assert(matches_span(
                                toks,
                                p2,
                                p2 + 1,
                                seq![TokenPattern::Just(TokenKind::Else)],
                            ));
                            lemma_matches_concat(
                                toks,
                                p2,
                                p2 + 1,
                                p3,
                                seq![TokenPattern::Just(TokenKind::Else)],
                                unparse_expr(nodes3, eb as int),
                            );
                            lemma_matches_concat(
                                toks,
                                p0,
                                p2,
                                p3,
                                front,
                                seq![TokenPattern::Just(TokenKind::Else)] + unparse_expr(
                                    nodes3,
                                    eb as int,
                                ),
                            );
                            assert(unparse_expr(self.nodes@, id as int) == front + (seq![
                                TokenPattern::Just(TokenKind::Else),
                            ] + unparse_expr(nodes3, eb as int)));
                        },
                        None => {
                            assert(unparse_expr(self.nodes@, id as int) =~= front);
                        },
                    }
                }
                Ok(id)
            },
            TokenKind::While => {
                self.bump();
                let condition = self.expression()?;
                let ghost nodes1 = self.nodes@;
                let ghost p1 = self.pos as int;
                let body = self.block()?;
                let ghost nodes2 = self.nodes@;
                let ghost p2 = self.pos as int;
                let id = self.push_expr(Expr::While { condition, body });
                proof {
                    let toks = self.tokens@;
                    lemma_unparse_grows(nodes1, self.nodes@, condition as int);
                    lemma_unparse_grows(nodes2, self.nodes@, body as int);
                    assert(matches_span(
                        toks,
                        p0,
                        p0 + 1,
                        seq![TokenPattern::Just(TokenKind::While)],
                    ));
                    lemma_matches_concat(
                        toks,
                        p0,
                        p0 + 1,
                        p1,
                        seq![TokenPattern::Just(TokenKind::While)],
                        unparse_expr(nodes1, condition as int),
                    );
                    lemma_matches_concat(
                        toks,
                        p0,
                        p1,
                        p2,
                        seq![TokenPattern::Just(TokenKind::While)] + unparse_expr(
                            nodes1,
                            condition as int,
                        ),
                        unparse_expr(nodes2, body as int),
                    );
                    assert(unparse_expr(self.nodes@, id as int) == seq![
                        TokenPattern::Just(TokenKind::While),
                    ] + unparse_expr(nodes1, condition as int) + unparse_expr(
                        nodes2,
                        body as int,
                    ));
                }
                Ok(id)
            },
            TokenKind::For => {
                self.bump();
                let name_line = self.peek_line();
                let ident = match self.consume(
                    TokenKind::Identifier,
                    ParserError::InvalidVariableName(name_line),
                ) {
                    Ok(t) => t,
                    Err(er) => {
                        return Err(er);
                    },
                };
                let variable = self.push_expr(Expr::Variable(ident));
                let in_line = self.peek_line();
                match self.consume(TokenKind::In, ParserError::UnexpectedToken(in_line)) {
                    Ok(_) => {},
                    Err(er) => {
                        return Err(er);
                    },
                }
                let ghost nodes1 = self.nodes@;
                let iterable = self.expression()?;
                let ghost nodes2 = self.nodes@;
                let ghost p2 = self.pos as int;
                let body = self.block()?;
                let ghost nodes3 = self.nodes@;
                let ghost p3 = self.pos as int;
                let id = self.push_expr(Expr::For { variable, iterable, body });
                proof {
                    let toks = self.tokens@;
                    lemma_unparse_grows(nodes1, self.nodes@, variable as int);
                    lemma_unparse_grows(nodes2, self.nodes@, iterable as int);
                    lemma_unparse_grows(nodes3, self.nodes@, body as int);
                    assert(matches_span(
                        toks,
                        p0,
                        p0 + 1,
                        seq![TokenPattern::Just(TokenKind::For)],
                    ));
                    assert(unparse_expr(nodes1, variable as int) == seq![
                        TokenPattern::Exact(toks[p0 + 1]),
                    ]);
                    assert(matches_span(
                        toks,
                        p0 + 1,
                        p0 + 2,
                        unparse_expr(nodes1, variable as int),
                    ));
                    lemma_matches_concat(
                        toks,
                        p0,
                        p0 + 1,
                        p0 + 2,
                        seq![TokenPattern::Just(TokenKind::For)],
                        unparse_expr(nodes1, variable as int),
                    );
                    assert(matches_span(
                        toks,
                        p0 + 2,
                        p0 + 3,
                        seq![TokenPattern::Just(TokenKind::In)],
                    ));
                    lemma_matches_concat(
                        toks,
                        p0,
                        p0 + 2,
                        p0 + 3,
                        seq![TokenPattern::Just(TokenKind::For)] + unparse_expr(
                            nodes1,
                            variable as int,
                        ),
                        seq![TokenPattern::Just(TokenKind::In)],
                    );
                    lemma_matches_concat(
                        toks,
                        p0,
                        p0 + 3,
                        p2,
                        seq![TokenPattern::Just(TokenKind::For)] + unparse_expr(
                            nodes1,
                            variable as int,
                        ) + seq![TokenPattern::Just(TokenKind::In)],
                        unparse_expr(nodes2, iterable as int),
                    );
                    lemma_matches_concat(
                        toks,
                        p0,
                        p2,
                        p3,
                        seq![TokenPattern::Just(TokenKind::For)] + unparse_expr(
                            nodes1,
                            variable as int,
                        ) + seq![TokenPattern::Just(TokenKind::In)] + unparse_expr(
                            nodes2,
                            iterable as int,
                        ),
                        unparse_expr(nodes3, body as int),
                    );
                    assert(unparse_expr(self.nodes@, id as int) == seq![
                        TokenPattern::Just(TokenKind::For),
                    ] + unparse_expr(nodes1, variable as int) + seq![
                        TokenPattern::Just(TokenKind::In),
                    ] + unparse_expr(nodes2, iterable as int) + unparse_expr(
                        nodes3,
                        body as int,
                    ));
                }
                Ok(id)
            },
            TokenKind::Return => {
                let keyword = self.bump();
                let kind_next = self.peek_kind();
                let has_value = !(kind_next == TokenKind::Semicolon || kind_next
                    == TokenKind::RightCurly || kind_next == TokenKind::RightParen || kind_next
                    == TokenKind::Comma || kind_next == TokenKind::Eof);
                if has_value {
                    let v = self.expression()?;
                    let ghost nodes1 = self.nodes@;
                    let ghost p1 = self.pos as int;
                    let id = self.push_expr(Expr::Return { keyword, value: Some(v) });
                    proof {
                        let toks = self.tokens@;
                        lemma_unparse_grows(nodes1, self.nodes@, v as int);
                        assert(matches_span(
                            toks,
                            p0,
                            p0 + 1,
                            seq![TokenPattern::Exact(keyword)],
                        ));
                        lemma_matches_concat(
                            toks,
                            p0,
                            p0 + 1,
                            p1,
                            seq![TokenPattern::Exact(keyword)],
                            unparse_expr(nodes1, v as int),
                        );
                        assert(unparse_expr(self.nodes@, id as int) == seq![
                            TokenPattern::Exact(keyword),
                        ] + unparse_expr(nodes1, v as int));
                    }
                    Ok(id)
                } else {
                    let id = self.push_expr(Expr::Return { keyword, value: None });
                    proof {
                        assert(unparse_expr(self.nodes@, id as int) =~= seq![
                            TokenPattern::Exact(keyword),
                        ]);
                        assert(matches_span(
                            self.tokens@,
                            p0,
                            p0 + 1,
                            unparse_expr(self.nodes@, id as int),
                        ));
                    }
                    Ok(id)
                }
            },
            _ => Err(ParserError::UnexpectedToken(line)),
        }
    }

    /// A block expression: `{` statements, optionally a trailing expression
    /// whose value the block yields, `}`.
    fn block(&mut self) -> (r: Result<usize, ParserError>)
        requires
            old(self).pwf(),
        ensures
            final(self).pwf(),
            final(self).tokens == old(self).tokens,
            final(self).pos >= old(self).pos,
            arena_extends(final(self).nodes@, old(self).nodes@),
            match r {
                Ok(id) => id < final(self).nodes@.len() && final(self).pos > old(self).pos
                    && matches_span(
                    final(self).tokens@,
                    old(self).pos as int,
                    final(self).pos as int,
                    unparse_expr(final(self).nodes@, id as int),
                ),
                Err(_) => true,
            },
        decreases self.tokens@.len() - self.pos, 0int,
    {
        let ghost p0 = old(self).pos as int;
        let open_line = self.peek_line();
        match self.consume(TokenKind::LeftCurly, ParserError::UnexpectedToken(open_line)) {
            Ok(_) => {},
            Err(er) => {
                return Err(er);
            },
        }
        let mut stmts: Vec<usize> = Vec::new();
        let mut return_expr: Option<usize> = None;
        let ghost mut listpats: Seq<TokenPattern> = Seq::empty();
        proof {
            assert(unparse_stmt_list(self.nodes@, stmts@, 0, self.nodes@.len() as int)
                =~= listpats);
            assert(matches_span(self.tokens@, p0 + 1, self.pos as int, listpats));
        }
        while self.peek_kind() != TokenKind::RightCurly && self.peek_kind() != TokenKind::Eof
            && return_expr.is_none()
            invariant
                self.pwf(),
                self.tokens == old(self).tokens,
                self.pos > old(self).pos,
                self.pos > p0,
                p0 == old(self).pos,
                arena_extends(self.nodes@, old(self).nodes@),
                forall|j: int| 0 <= j < stmts@.len() ==> (#[trigger] stmts@[j]) < self.nodes@.len(),
                listpats == unparse_stmt_list(self.nodes@, stmts@, 0, self.nodes@.len() as int),
                match return_expr {
                    None => matches_span(self.tokens@, p0 + 1, self.pos as int, listpats),
                    Some(re) => re < self.nodes@.len() && matches_span(
                        self.tokens@,
                        p0 + 1,
                        self.pos as int,
                        listpats + unparse_expr(self.nodes@, re as int),
                    ),
                },
            decreases self.tokens@.len() - self.pos,
        {
            let k = self.peek_kind();
            let ghost na = self.nodes@;
            let ghost pa = self.pos as int;
            if k == TokenKind::Var || k == TokenKind::Fn || k == TokenKind::Class || k
                == TokenKind::Print {
                let sid = self.declaration()?;
                proof {
                    let nb = self.nodes@;
                    lemma_stmt_list_bound(nb, stmts@, 0, na.len() as int, nb.len() as int);
                    lemma_unparse_stmt_list_grows(na, nb, stmts@, 0, na.len() as int);
                    lemma_matches_concat(
                        self.tokens@,
                        p0 + 1,
                        pa,
                        self.pos as int,
                        listpats,
                        unparse_stmt(nb, sid as int),
                    );
                    lemma_stmt_list_snoc(nb, stmts@, sid, nb.len() as int);
                    listpats = unparse_stmt_list(nb, stmts@.push(sid), 0, nb.len() as int);
                    assert(matches_span(self.tokens@, p0 + 1, self.pos as int, listpats));
                }
                stmts.push(sid);
            } else {
                let e = self.expression()?;
                let ghost nb = self.nodes@;
                let ghost pb = self.pos as int;
                if self.peek_kind() == TokenKind::Semicolon {
                    self.bump();
                    let sid = self.push_stmt(Stmt::Expr { expr: e, has_semicolon: true });
                    proof {
                        let nc = self.nodes@;
                        lemma_unparse_grows(nb, nc, e as int);
                        assert(unparse_stmt(nc, sid as int) == unparse_expr(nb, e as int) + seq![
                            TokenPattern::Just(TokenKind::Semicolon),
                        ]);
                        assert(matches_span(
                            self.tokens@,
                            pb,
                            pb + 1,
                            seq![TokenPattern::Just(TokenKind::Semicolon)],
                        ));
                        lemma_matches_concat(
                            self.tokens@,
                            pa,
                            pb,
                            pb + 1,
                            unparse_expr(nb, e as int),
                            seq![TokenPattern::Just(TokenKind::Semicolon)],
                        );
                        lemma_stmt_list_bound(nc, stmts@, 0, na.len() as int, nc.len() as int);
                        lemma_unparse_stmt_list_grows(na, nc, stmts@, 0, na.len() as int);
                        lemma_matches_concat(
                            self.tokens@,
                            p0 + 1,
                            pa,
                            self.pos as int,
                            listpats,
                            unparse_stmt(nc, sid as int),
                        );
                        lemma_stmt_list_snoc(nc, stmts@, sid, nc.len() as int);
                        listpats = unparse_stmt_list(nc, stmts@.push(sid), 0, nc.len() as int);
                        assert(matches_span(self.tokens@, p0 + 1, self.pos as int, listpats));
                    }
                    stmts.push(sid);
                } else if self.peek_kind() == TokenKind::RightCurly {
                    return_expr = Some(e);
                    proof {
                        lemma_stmt_list_bound(nb, stmts@, 0, na.len() as int, nb.len() as int);
                        lemma_unparse_stmt_list_grows(na, nb, stmts@, 0, na.len() as int);
                        listpats = unparse_stmt_list(nb, stmts@, 0, nb.len() as int);
                        lemma_matches_concat(
                            self.tokens@,
                            p0 + 1,
                            pa,
                            self.pos as int,
                            listpats,
                            unparse_expr(nb, e as int),
                        );
                    }
                } else {
                    return Err(ParserError::MissingTerminator(self.peek_line()));
                }
            }
        }
        let ghost nodes_end = self.nodes@;
        let ghost p_end = self.pos as int;
        let close_line = self.peek_line();
        match self.consume(TokenKind::RightCurly, ParserError::UnclosedBlock(close_line)) {
            Ok(_) => {},
            Err(er) => {
                return Err(er);
            },
        }
        let id = self.push_expr(Expr::Block { stmts, return_expr });
        proof {
            let toks = self.tokens@;
            let fin = self.nodes@;
            let eid = id as int;
            let sids = fin[eid]->Expr_0->Block_stmts;
            lemma_stmt_list_bound(fin, sids@, 0, nodes_end.len() as int, eid);
            lemma_unparse_stmt_list_grows(nodes_end, fin, sids@, 0, nodes_end.len() as int);
            assert(unparse_stmt_list(fin, sids@, 0, eid) == listpats);
            let mid = match return_expr {
                Some(re) => {
                    lemma_unparse_grows(nodes_end, fin, re as int);
                    listpats + unparse_expr(fin, re as int)
                },
                None => {
                    assert(listpats + Seq::<TokenPattern>::empty() =~= listpats);
                    listpats
                },
            };
            assert(matches_span(toks, p0, p0 + 1, seq![TokenPattern::Just(TokenKind::LeftCurly)]));
            lemma_matches_concat(
                toks,
                p0,
                p0 + 1,
                p_end,
                seq![TokenPattern::Just(TokenKind::LeftCurly)],
                mid,
            );
            assert(matches_span(
                toks,
                p_end,
                p_end + 1,
                seq![TokenPattern::Just(TokenKind::RightCurly)],
            ));
            lemma_matches_concat(
                toks,
                p0,
                p_end,
                p_end + 1,
                seq![TokenPattern::Just(TokenKind::LeftCurly)] + mid,
                seq![TokenPattern::Just(TokenKind::RightCurly)],
            );
            assert(unparse_expr(fin, eid) =~= seq![TokenPattern::Just(TokenKind::LeftCurly)] + mid
                + seq![TokenPattern::Just(TokenKind::RightCurly)]);
        }
        Ok(id)
    }

    /// A declaration or statement: `var`, `fn`, `class`, `print`, or an
    /// expression statement terminated by a semicolon.  On success the
    /// produced node re-renders to exactly the consumed token span.
    fn declaration(&mut self) -> (r: Result<usize, ParserError>)
        requires
            old(self).pwf(),
        ensures
            final(self).pwf(),
            final(self).tokens == old(self).tokens,
            final(self).pos >= old(self).pos,
            arena_extends(final(self).nodes@, old(self).nodes@),
            match r {
                Ok(id) => id < final(self).nodes@.len() && final(self).pos > old(self).pos
                    && matches_span(
                    final(self).tokens@,
                    old(self).pos as int,
                    final(self).pos as int,
                    unparse_stmt(final(self).nodes@, id as int),
                ),
                Err(_) => true,
            },
        decreases self.tokens@.len() - self.pos, 14int,
    {
        let ghost p0 = old(self).pos as int;
        match self.peek_kind() {
            TokenKind::Var => {
                self.bump();
                let name_line = self.peek_line();
                let name = match self.consume(
                    TokenKind::Identifier,
                    ParserError::InvalidVariableName(name_line),
                ) {
                    Ok(t) => t,
                    Err(er) => {
                        return Err(er);
                    },
                };
                let ghost has_init = self.peeked_kind() == TokenKind::Equal;
                let initializer = if self.peek_kind() == TokenKind::Equal {
                    self.bump();
                    Some(self.expression()?)
                } else {
                    None
                };
                let ghost nodes1 = self.nodes@;
                let ghost p1 = self.pos as int;
                let semi_line = self.peek_line();
                match self.consume(
                    TokenKind::Semicolon,
                    ParserError::MissingTerminator(semi_line),
                ) {
                    Ok(_) => {},
                    Err(er) => {
                        return Err(er);
                    },
                }
                let id = self.push_stmt(Stmt::Var { name, initializer });
                proof {
                    let toks = self.tokens@;
                    let headpats = seq![
                        TokenPattern::Just(TokenKind::Var),
                        TokenPattern::Exact(toks[p0 + 1]),
                    ];
                    assert(matches_span(toks, p0, p0 + 2, headpats));
                    let mid = match initializer {
                        Some(init) => {
                            lemma_unparse_grows(nodes1, self.nodes@, init as int);
                            assert(matches_span(
                                toks,
                                p0 + 2,
                                p0 + 3,
                                seq![TokenPattern::Just(TokenKind::Equal)],
                            ));
                            lemma_matches_concat(
                                toks,
                                p0 + 2,
                                p0 + 3,
                                p1,
                                seq![TokenPattern::Just(TokenKind::Equal)],
                                unparse_expr(nodes1, init as int),
                            );
                            seq![TokenPattern::Just(TokenKind::Equal)] + unparse_expr(
                                nodes1,
                                init as int,
                            )
                        },
                        None => Seq::<TokenPattern>::empty(),
                    };
                    assert(matches_span(toks, p0 + 2, p1, mid));
                    lemma_matches_concat(toks, p0, p0 + 2, p1, headpats, mid);
                    assert(matches_span(
                        toks,
                        p1,
                        p1 + 1,
                        seq![TokenPattern::Just(TokenKind::Semicolon)],
                    ));
                    lemma_matches_concat(
                        toks,
                        p0,
                        p1,
                        p1 + 1,
                        headpats + mid,
                        seq![TokenPattern::Just(TokenKind::Semicolon)],
                    );
                    assert(unparse_stmt(self.nodes@, id as int) =~= headpats + mid + seq![
                        TokenPattern::Just(TokenKind::Semicolon),
                    ]);
                }
                Ok(id)
            },
            TokenKind::Fn => self.fn_decl(),
            TokenKind::Class => {
                self.bump();
                let name_line = self.peek_line();
                let name = match self.consume(
                    TokenKind::Identifier,
                    ParserError::InvalidVariableName(name_line),
                ) {
                    Ok(t) => t,
                    Err(er) => {
                        return Err(er);
                    },
                };
                let open_line = self.peek_line();
                match self.consume(
                    TokenKind::LeftCurly,
                    ParserError::UnexpectedToken(open_line),
                ) {
                    Ok(_) => {},
                    Err(er) => {
                        return Err(er);
                    },
                }
                let mut methods: Vec<usize> = Vec::new();
                let ghost mut listpats: Seq<TokenPattern> = Seq::empty();
                proof {
                    assert(unparse_method_list(
                        self.nodes@,
                        methods@,
                        0,
                        self.nodes@.len() as int,
                    ) =~= listpats);
                    assert(matches_span(self.tokens@, p0 + 3, self.pos as int, listpats));
                }
                while self.peek_kind() == TokenKind::Fn
                    invariant
                        self.pwf(),
                        self.tokens == old(self).tokens,
                        self.pos >= p0 + 3,
                        p0 == old(self).pos,
                        arena_extends(self.nodes@, old(self).nodes@),
                        forall|j: int|
                            0 <= j < methods@.len() ==> (#[trigger] methods@[j])
                                < self.nodes@.len(),
                        listpats == unparse_method_list(
                            self.nodes@,
                            methods@,
                            0,
                            self.nodes@.len() as int,
                        ),
                        matches_span(self.tokens@, p0 + 3, self.pos as int, listpats),
                    decreases self.tokens@.len() - self.pos,
                {
                    let ghost na = self.nodes@;
                    let ghost pa = self.pos as int;
                    let m = self.fn_decl()?;
                    proof {
                        let nb = self.nodes@;
                        lemma_method_list_bound(nb, methods@, 0, na.len() as int, nb.len() as int);
                        lemma_unparse_method_list_grows(na, nb, methods@, 0, na.len() as int);
                        lemma_matches_concat(
                            self.tokens@,
                            p0 + 3,
                            pa,
                            self.pos as int,
                            listpats,
                            unparse_stmt(nb, m as int),
                        );
                        lemma_method_list_snoc(nb, methods@, m, nb.len() as int);
                        listpats = unparse_method_list(nb, methods@.push(m), 0, nb.len() as int);
                        assert(matches_span(self.tokens@, p0 + 3, self.pos as int, listpats));
                    }
                    methods.push(m);
                }
                let ghost nodes_end = self.nodes@;
                let ghost p_end = self.pos as int;
                let close_line = self.peek_line();
                match self.consume(TokenKind::RightCurly, ParserError::UnclosedBlock(close_line)) {
                    Ok(_) => {},
                    Err(er) => {
                        return Err(er);
                    },
                }
                let id = self.push_stmt(Stmt::Class { name, methods });
                proof {
                    let toks = self.tokens@;
                    let fin = self.nodes@;
                    let sid = id as int;
                    let mids = fin[sid]->Stmt_0->Class_methods;
                    lemma_method_list_bound(fin, mids@, 0, nodes_end.len() as int, sid);
                    lemma_unparse_method_list_grows(
                        nodes_end,
                        fin,
                        mids@,
                        0,
                        nodes_end.len() as int,
                    );
                    assert(unparse_method_list(fin, mids@, 0, sid) == listpats);
                    let headpats = seq![
                        TokenPattern::Just(TokenKind::Class),
                        TokenPattern::Exact(toks[p0 + 1]),
                        TokenPattern::Just(TokenKind::LeftCurly),
                    ];
                    assert(matches_span(toks, p0, p0 + 3, headpats));
                    lemma_matches_concat(toks, p0, p0 + 3, p_end, headpats, listpats);
                    assert(matches_span(
                        toks,
                        p_end,
                        p_end + 1,
                        seq![TokenPattern::Just(TokenKind::RightCurly)],
                    ));
                    lemma_matches_concat(
                        toks,
                        p0,
                        p_end,
                        p_end + 1,
                        headpats + listpats,
                        seq![TokenPattern::Just(TokenKind::RightCurly)],
                    );
                    assert(unparse_stmt(fin, sid) =~= headpats + listpats + seq![
                        TokenPattern::Just(TokenKind::RightCurly),
                    ]);
                }
                Ok(id)
            },
            TokenKind::Print => {
                self.bump();
                let e = self.expression()?;
                let ghost nodes1 = self.nodes@;
                let ghost p1 = self.pos as int;
                let semi_line = self.peek_line();
                match self.consume(
                    TokenKind::Semicolon,
                    ParserError::MissingTerminator(semi_line),
                ) {
                    Ok(_) => {},
                    Err(er) => {
                        return Err(er);
                    },
                }
                let id = self.push_stmt(Stmt::Print(e));
                proof {
                    let toks = self.tokens@;
                    lemma_unparse_grows(nodes1, self.nodes@, e as int);
                    assert(matches_span(
                        toks,
                        p0,
                        p0 + 1,
                        seq![TokenPattern::Just(TokenKind::Print)],
                    ));
                    lemma_matches_concat(
                        toks,
                        p0,
                        p0 + 1,
                        p1,
                        seq![TokenPattern::Just(TokenKind::Print)],
                        unparse_expr(nodes1, e as int),
                    );
                    assert(matches_span(
                        toks,
                        p1,
                        p1 + 1,
                        seq![TokenPattern::Just(TokenKind::Semicolon)],
                    ));
                    lemma_matches_concat(
                        toks,
                        p0,
                        p1,
                        p1 + 1,
                        seq![TokenPattern::Just(TokenKind::Print)] + unparse_expr(
                            nodes1,
                            e as int,
                        ),
                        seq![TokenPattern::Just(TokenKind::Semicolon)],
                    );
                    assert(unparse_stmt(self.nodes@, id as int) == seq![
                        TokenPattern::Just(TokenKind::Print),
                    ] + unparse_expr(nodes1, e as int) + seq![
                        TokenPattern::Just(TokenKind::Semicolon),
                    ]);
                }
                Ok(id)
            },
            _ => {
                let e = self.expression()?;
                let ghost nodes1 = self.nodes@;
                let ghost p1 = self.pos as int;
                let semi_line = self.peek_line();
                match self.consume(
                    TokenKind::Semicolon,
                    ParserError::MissingTerminator(semi_line),
                ) {
                    Ok(_) => {},
                    Err(er) => {
                        return Err(er);
                    },
                }
                let id = self.push_stmt(Stmt::Expr { expr: e, has_semicolon: true });
                proof {
                    let toks = self.tokens@;
                    lemma_unparse_grows(nodes1, self.nodes@, e as int);
                    assert(matches_span(
                        toks,
                        p1,
                        p1 + 1,
                        seq![TokenPattern::Just(TokenKind::Semicolon)],
                    ));
                    lemma_matches_concat(
                        toks,
                        p0,
                        p1,
                        p1 + 1,
                        unparse_expr(nodes1, e as int),
                        seq![TokenPattern::Just(TokenKind::Semicolon)],
                    );
                    assert(unparse_stmt(self.nodes@, id as int) == unparse_expr(nodes1, e as int)
                        + seq![TokenPattern::Just(TokenKind::Semicolon)]);
                }
                Ok(id)
            },
        }
    }

    /// A function declaration: `fn name(params) { body }`.
    fn fn_decl(&mut self) -> (r: Result<usize, ParserError>)
        requires
            old(self).pwf(),
            old(self).peeked_kind() == TokenKind::Fn,
        ensures
            final(self).pwf(),
            final(self).tokens == old(self).tokens,
            final(self).pos >= old(self).pos,
            arena_extends(final(self).nodes@, old(self).nodes@),
            match r {
                Ok(id) => id < final(self).nodes@.len() && final(self).pos > old(self).pos
                    && matches_span(
                    final(self).tokens@,
                    old(self).pos as int,
                    final(self).pos as int,
                    unparse_stmt(final(self).nodes@, id as int),
                ),
                Err(_) => true,
            },
        decreases self.tokens@.len() - self.pos, 13int,
    {
        let ghost p0 = old(self).pos as int;
        self.bump();
        let name_line = self.peek_line();
        let name = match self.consume(
            TokenKind::Identifier,
            ParserError::InvalidVariableName(name_line),
        ) {
            Ok(t) => t,
            Err(er) => {
                return Err(er);
            },
        };
        let open_line = self.peek_line();
        match self.consume(TokenKind::LeftParen, ParserError::UnexpectedToken(open_line)) {
            Ok(_) => {},
            Err(er) => {
                return Err(er);
            },
        }
        let mut params: Vec<Token> = Vec::new();
        let ghost mut parpats: Seq<TokenPattern> = Seq::empty();
        proof {
            assert(unparse_params(params@, 0) =~= parpats);
            assert(matches_span(self.tokens@, p0 + 3, self.pos as int, parpats));
        }
        if self.peek_kind() != TokenKind::RightParen {
            let p_line = self.peek_line();
            let first = match self.consume(
                TokenKind::Identifier,
                ParserError::InvalidVariableName(p_line),
            ) {
                Ok(t) => t,
                Err(er) => {
                    return Err(er);
                },
            };
            proof {
                lemma_params_snoc(params@, first);
                parpats = seq![TokenPattern::Exact(first)];
                assert(unparse_params(params@.push(first), 0) =~= parpats);
                assert(matches_span(self.tokens@, p0 + 3, self.pos as int, parpats));
            }
            params.push(first);
            while self.peek_kind() == TokenKind::Comma
                invariant
                    self.pwf(),
                    self.tokens == old(self).tokens,
                    self.pos > p0 + 3,
                    p0 == old(self).pos,
                    arena_extends(self.nodes@, old(self).nodes@),
                    self.nodes == old(self).nodes,
                    params@.len() > 0,
                    parpats == unparse_params(params@, 0),
                    matches_span(self.tokens@, p0 + 3, self.pos as int, parpats),
                decreases self.tokens@.len() - self.pos,
            {
                let ghost pb = self.pos as int;
                self.bump();
                let p_line2 = self.peek_line();
                let next = match self.consume(
                    TokenKind::Identifier,
                    ParserError::InvalidVariableName(p_line2),
                ) {
                    Ok(t) => t,
                    Err(er) => {
                        return Err(er);
                    },
                };
                proof {
                    let toks = self.tokens@;
                    assert(matches_span(
                        toks,
                        pb,
                        pb + 2,
                        seq![TokenPattern::Just(TokenKind::Comma), TokenPattern::Exact(next)],
                    ));
                    lemma_matches_concat(
                        toks,
                        p0 + 3,
                        pb,
                        pb + 2,
                        parpats,
                        seq![TokenPattern::Just(TokenKind::Comma), TokenPattern::Exact(next)],
                    );
                    lemma_params_snoc(params@, next);
                    parpats = unparse_params(params@.push(next), 0);
                    assert(parpats =~= unparse_params(params@, 0) + seq![
                        TokenPattern::Just(TokenKind::Comma),
                    ] + seq![TokenPattern::Exact(next)]);
                    assert(unparse_params(params@, 0) + seq![
                        TokenPattern::Just(TokenKind::Comma),
                    ] + seq![TokenPattern::Exact(next)] =~= unparse_params(params@, 0) + seq![
                        TokenPattern::Just(TokenKind::Comma),
                        TokenPattern::Exact(next),
                    ]);
                    assert(matches_span(toks, p0 + 3, self.pos as int, parpats));
                }
                params.push(next);
            }
        }
        let ghost p_close = self.pos as int;
        let close_line = self.peek_line();
        match self.consume(TokenKind::RightParen, ParserError::UnclosedGrouping(close_line)) {
            Ok(_) => {},
            Err(er) => {
                return Err(er);
            },
        }
        let body = self.block()?;
        let ghost nodes1 = self.nodes@;
        let ghost p1 = self.pos as int;
        let id = self.push_stmt(Stmt::Fn { name, params, body });
        proof {
            let toks = self.tokens@;
            let fin = self.nodes@;
            let sid = id as int;
            lemma_unparse_grows(nodes1, fin, body as int);
            let headpats = seq![
                TokenPattern::Just(TokenKind::Fn),
                TokenPattern::Exact(toks[p0 + 1]),
                TokenPattern::Just(TokenKind::LeftParen),
            ];
            assert(matches_span(toks, p0, p0 + 3, headpats));
            lemma_matches_concat(toks, p0, p0 + 3, p_close, headpats, parpats);
            assert(matches_span(
                toks,
                p_close,
                p_close + 1,
                seq![TokenPattern::Just(TokenKind::RightParen)],
            ));
            lemma_matches_concat(
                toks,
                p0,
                p_close,
                p_close + 1,
                headpats + parpats,
                seq![TokenPattern::Just(TokenKind::RightParen)],
            );
            lemma_matches_concat(
                toks,
                p0,
                p_close + 1,
                p1,
                headpats + parpats + seq![TokenPattern::Just(TokenKind::RightParen)],
                unparse_expr(nodes1, body as int),
            );
            assert(unparse_stmt(fin, sid) =~= headpats + parpats + seq![
                TokenPattern::Just(TokenKind::RightParen),
            ] + unparse_expr(nodes1, body as int));
        }
        Ok(id)
    }

    /// Skip to the next statement boundary after an error, so the pass can
    /// go on collecting further errors.
    fn synchronize(&mut self)
        requires
            old(self).pwf(),
        ensures
            final(self).pwf(),
            final(self).tokens == old(self).tokens,
            final(self).nodes == old(self).nodes,
            final(self).pos >= old(self).pos,
            old(self).peeked_kind() != TokenKind::Eof ==> final(self).pos > old(self).pos,
        decreases self.tokens@.len() - self.pos, 1int,
    {
        if self.peek_kind() == TokenKind::Eof {
            return ;
        }
        let k = self.bump().kind;
        if k == TokenKind::Semicolon {
            return ;
        }
        let next = self.peek_kind();
        if next == TokenKind::Var || next == TokenKind::Fn || next == TokenKind::Class || next
            == TokenKind::Print || next == TokenKind::Eof {
            return ;
        }
        self.synchronize()
    }

    /// Parse a whole program: top-level declarations until end of input,
    /// skipping a failed statement after recording its error.  When no
    /// error was recorded, the program's statements re-render to exactly
    /// the token list up to its end-of-input token: nothing is dropped,
    /// invented or reshaped.
    pub fn parse(self) -> (r: (Program, Vec<ParserError>))
        requires
            self.pwf(),
        ensures
            r.0.wf(),
            r.1@.len() == 0 ==> exists|end: int|
                #[trigger] matches_span(
                    self.tokens@,
                    self.pos as int,
                    end,
                    unparse_program(r.0.nodes@, r.0.top@, 0),
                ) && (end == self.tokens@.len() || self.tokens@[end].kind == TokenKind::Eof),
    {
        let ghost p0 = self.pos as int;
        let mut p = self;
        let mut top: Vec<usize> = Vec::new();
        let mut errors: Vec<ParserError> = Vec::new();
        proof {
            assert(unparse_program(p.nodes@, top@, 0) =~= Seq::<TokenPattern>::empty());
            assert(matches_span(p.tokens@, p0, p.pos as int, unparse_program(p.nodes@, top@, 0)));
        }
        while p.peek_kind() != TokenKind::Eof
            invariant
                p.pwf(),
                p.tokens@ == self.tokens@,
                p.pos >= p0,
                p0 == self.pos,
                forall|j: int| 0 <= j < top@.len() ==> (#[trigger] top@[j]) < p.nodes@.len(),
                errors@.len() == 0 ==> matches_span(
                    p.tokens@,
                    p0,
                    p.pos as int,
                    unparse_program(p.nodes@, top@, 0),
                ),
            decreases p.tokens@.len() - p.pos,
        {
            let ghost na = p.nodes@;
            let ghost pa = p.pos as int;
            match p.declaration() {
                Ok(sid) => {
                    proof {
                        if errors@.len() == 0 {
                            let nb = p.nodes@;
                            lemma_unparse_program_grows(na, nb, top@, 0);
                            lemma_matches_concat(
                                p.tokens@,
                                p0,
                                pa,
                                p.pos as int,
                                unparse_program(nb, top@, 0),
                                unparse_stmt(nb, sid as int),
                            );
                            lemma_program_snoc(nb, top@, sid);
                            assert(matches_span(
                                p.tokens@,
                                p0,
                                p.pos as int,
                                unparse_program(nb, top@.push(sid), 0),
                            ));
                        }
                    }
                    top.push(sid);
                },
                Err(er) => {
                    errors.push(er);
                    p.synchronize();
                },
            }
        }
        let ghost fin_pos = p.pos as int;
        let program = Program { nodes: p.nodes, top };
        let r = (program, errors);
        proof {
            if r.1@.len() == 0 {
                assert(matches_span(
                    self.tokens@,
                    self.pos as int,
                    fin_pos,
                    unparse_program(r.0.nodes@, r.0.top@, 0),
                ) && (fin_pos == self.tokens@.len() || self.tokens@[fin_pos].kind
                    == TokenKind::Eof));
                assert(exists|end: int|
                    #[trigger] matches_span(
                        self.tokens@,
                        self.pos as int,
                        end,
                        unparse_program(r.0.nodes@, r.0.top@, 0),
                    ) && (end == self.tokens@.len() || self.tokens@[end].kind == TokenKind::Eof));
            }
        }
        r
    }
}

} // verus!
