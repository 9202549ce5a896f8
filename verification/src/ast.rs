//! The expression/statement tree.  Nodes live in one arena (a vector) and
//! refer to their children by index.  The parser pushes every child before
//! its parent, so a node's children always have smaller indices than the
//! node itself; `wf_nodes` records exactly that.  Recursive passes over the
//! tree (the resolver) terminate because the child index decreases, and
//! runtime closures can refer to a function body by index alone, with no
//! copying of subtrees.

use vstd::prelude::*;

use crate::token::Token;

verus! {

/// A literal expression: the payload of a `Literal` token, lifted into the
/// tree.
#[derive(Debug)]
pub enum LiteralExpr {
    Bool(bool),
    Integer(i64),
    Str(String),
}

/// An expression node.  `usize` fields are arena indices of child nodes,
/// which are always expressions unless noted.
#[derive(Debug)]
#[allow(inconsistent_fields)]
pub enum Expr {
    Literal(LiteralExpr),
    Unary { operator: Token, right: usize },
    Binary { left: usize, operator: Token, right: usize },
    Logical { left: usize, operator: Token, right: usize },
    Group(usize),
    Variable(Token),
    Assignment { name: Token, value: usize },
    /// A block is an expression: it runs its statements (child statement
    /// nodes) and yields the value of its trailing expression, or unit when
    /// the last statement was terminated with a semicolon.
    Block { stmts: Vec<usize>, return_expr: Option<usize> },
    If { condition: usize, then_branch: usize, else_branch: Option<usize> },
    While { condition: usize, body: usize },
    For { variable: usize, iterable: usize, body: usize },
    Call { callee: usize, paren: Token, args: Vec<usize> },
    FieldAccess { object: usize, name: Token },
    FieldSet { object: usize, name: Token, value: usize },
    Return { keyword: Token, value: Option<usize> },
}

/// A statement node.  `usize` fields are arena indices of child nodes.
#[derive(Debug)]
pub enum Stmt {
    Print(usize),
    /// An expression statement.  `has_semicolon` records whether it was
    /// terminated; an unterminated expression at the end of a block becomes
    /// the block's value instead.
    Expr { expr: usize, has_semicolon: bool },
    Var { name: Token, initializer: Option<usize> },
    /// A function declaration; `body` is the index of a `Block` expression.
    Fn { name: Token, params: Vec<Token>, body: usize },
    /// A class declaration; each method index refers to a `Fn` statement
    /// node.
    Class { name: Token, methods: Vec<usize> },
}

/// One slot of the arena: either an expression or a statement.
#[derive(Debug)]
pub enum Node {
    Expr(Expr),
    Stmt(Stmt),
}

/// A parsed program: the node arena and the indices of the top-level
/// statements, in source order.
#[derive(Debug)]
pub struct Program {
    pub nodes: Vec<Node>,
    pub top: Vec<usize>,
}

/// A parsed single expression: the node arena and the index of the root.
#[derive(Debug)]
pub struct ParsedExpr {
    pub nodes: Vec<Node>,
    pub root: usize,
}

/// All child indices of `n` are smaller than `i`: `n` may stand at arena
/// slot `i` without breaking the order the parser establishes.
pub open spec fn node_wf(n: Node, i: int) -> bool {
    match n {
        Node::Expr(e) => match e {
            Expr::Literal(_) => true,
            Expr::Unary { right, .. } => right < i,
            Expr::Binary { left, right, .. } => left < i && right < i,
            Expr::Logical { left, right, .. } => left < i && right < i,
            Expr::Group(inner) => inner < i,
            Expr::Variable(_) => true,
            Expr::Assignment { value, .. } => value < i,
            Expr::Block { stmts, return_expr } => {
                &&& forall|j: int| 0 <= j < stmts@.len() ==> stmts@[j] < i
                &&& match return_expr {
                    Some(r) => r < i,
                    None => true,
                }
            },
            Expr::If { condition, then_branch, else_branch } => {
                &&& condition < i
                &&& then_branch < i
                &&& match else_branch {
                    Some(e) => e < i,
                    None => true,
                }
            },
            Expr::While { condition, body } => condition < i && body < i,
            Expr::For { variable, iterable, body } => variable < i && iterable < i && body < i,
            Expr::Call { callee, args, .. } => {
                &&& callee < i
                &&& forall|j: int| 0 <= j < args@.len() ==> args@[j] < i
            },
            Expr::FieldAccess { object, .. } => object < i,
            Expr::FieldSet { object, value, .. } => object < i && value < i,
            Expr::Return { value, .. } => match value {
                Some(v) => v < i,
                None => true,
            },
        },
        Node::Stmt(s) => match s {
            Stmt::Print(e) => e < i,
            Stmt::Expr { expr, .. } => expr < i,
            Stmt::Var { initializer, .. } => match initializer {
                Some(init) => init < i,
                None => true,
            },
            Stmt::Fn { body, .. } => body < i,
            Stmt::Class { methods, .. } => forall|j: int|
                0 <= j < methods@.len() ==> methods@[j] < i,
        },
    }
}

/// Every node's children have smaller indices: the arena is in bottom-up
/// order, so index-directed recursion over it terminates.
pub open spec fn wf_nodes(nodes: Seq<Node>) -> bool {
    forall|i: int| 0 <= i < nodes.len() ==> node_wf(#[trigger] nodes[i], i)
}

impl Program {
    /// The arena is bottom-up ordered and every top-level index is in range
    /// and names a statement.
    pub open spec fn wf(&self) -> bool {
        &&& wf_nodes(self.nodes@)
        &&& forall|i: int|
            0 <= i < self.top@.len() ==> #[trigger] self.top@[i] < self.nodes@.len()
    }
}

impl ParsedExpr {
    /// The arena is bottom-up ordered and the root index is in range.
    pub open spec fn wf(&self) -> bool {
        &&& wf_nodes(self.nodes@)
        &&& self.root < self.nodes@.len()
    }
}

} // verus!
