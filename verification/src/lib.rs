//! A small dynamically typed scripting language: scanner, recursive-descent
//! parser, static scope resolver, and a tree-walking interpreter with
//! closures and classes, together with a separate bytecode chunk format and
//! stack virtual machine for arithmetic expressions.
//!
//! The resolver and the interpreter are specified exactly: `semantics`
//! holds a big-step evaluation semantics and `resolver` a resolution
//! semantics, and the executable passes are proved to return precisely what
//! those specifications say.  `laws` states and proves the general
//! properties the language promises.

use vstd::prelude::*;

pub mod ast;
pub mod builtins;
pub mod chunk;
pub mod environment;
pub mod interpreter;
pub mod laws;
pub mod op_code;
pub mod parser;
pub mod precedence;
pub mod resolver;
pub mod scanner;
pub mod semantics;
pub mod text;
pub mod token;
pub mod value;
pub mod vm;

use crate::ast::{Node, ParsedExpr, Program};
use crate::environment::{env_define, ScopeV};
use crate::interpreter::Interpreter;
use crate::parser::{matches_span, unparse_expr, unparse_program, Parser, ParserError};
use crate::resolver::{resolve_stmts_spec, ResolveError, Resolver, ResolverV};
use crate::scanner::{scan_spec, Scanner, ScannerError};
use crate::semantics::{eval_expr_spec, exec_stmts_spec, StateV};
use crate::token::{Token, TokenKind, TokenV};
use crate::value::{NativeFn, RuntimeUnwind, RuntimeValue, ValueV};

verus! {

/// The evaluation budget handed to the interpreter: each node visited,
/// call made and loop iteration run costs one unit, and a program that
/// exceeds the budget stops with a resource-exhaustion error.
pub const EVAL_FUEL: u64 = 10_000_000;

/// Everything that can go wrong between source text and a finished run.
#[derive(Debug)]
pub enum LofError {
    ScannerError(ScannerError),
    ParserError(ParserError),
    ResolverError(ResolveError),
    RuntimeError(RuntimeUnwind),
}

/// The state a fresh interpreter starts in: one global scope holding the
/// two native builtins, and the given resolution map and clock sample.
pub open spec fn fresh_state(locals: Seq<(int, int)>, time: int) -> StateV {
    StateV {
        env: env_define(
            env_define(
                seq![ScopeV { enclosing: None, values: Seq::empty() }],
                0,
                "time"@,
                ValueV::Native(NativeFn::Time),
            ),
            0,
            "assert"@,
            ValueV::Native(NativeFn::Assert),
        ),
        current: 0,
        globals: 0,
        locals,
        instances: Seq::empty(),
        output: Seq::empty(),
        time,
    }
}

/// The token values are exactly the lexing specification's tokens: same
/// length, and the specification holds each token's image at its position
/// (so there is no lexical error among them).
pub open spec fn tokens_match_scan(
    toks: Seq<Token>,
    scanned: Seq<Result<TokenV, ScannerError>>,
) -> bool {
    &&& toks.len() == scanned.len()
    &&& forall|k: int|
        0 <= k < toks.len() ==> scanned[k] == Ok::<TokenV, ScannerError>((#[trigger] toks[k])@)
}

/// The lexing specification's entry at `k` is its first error, and it is
/// `e`.
pub open spec fn first_scan_error(
    scanned: Seq<Result<TokenV, ScannerError>>,
    e: ScannerError,
) -> bool {
    exists|k: int|
        0 <= k < scanned.len() && #[trigger] scanned[k] == Err::<TokenV, ScannerError>(e)
            && forall|j: int| 0 <= j < k ==> scanned[j] is Ok
}

/// Scan the source, failing on the first lexical error.
fn scan_source(source: &str) -> (r: Result<Vec<Token>, LofError>)
    ensures
        r is Ok ==> tokens_match_scan(r->Ok_0@, scan_spec(source@, 0, 0, 0)),
        r is Err ==> r->Err_0 is ScannerError && first_scan_error(
            scan_spec(source@, 0, 0, 0),
            r->Err_0->ScannerError_0,
        ),
{
    let scanner = Scanner::new(source);
    proof {
        assert(scanner.remaining() =~= scan_spec(source@, 0, 0, 0));
    }
    let raw = scanner.scan_tokens();
    let ghost scanned = scan_spec(source@, 0, 0, 0);
    let mut toks: Vec<Token> = Vec::new();
    let n = raw.len();
    let mut i: usize = 0;
    while i < n
        invariant
            n == raw@.len(),
            i <= n,
            scanned == scan_spec(source@, 0, 0, 0),
            crate::scanner::results_view(raw@) == scanned,
            toks@.len() == i,
            forall|k: int|
                0 <= k < i ==> scanned[k] == Ok::<TokenV, ScannerError>((#[trigger] toks@[k])@),
            forall|k: int| 0 <= k < i ==> #[trigger] scanned[k] is Ok,
        decreases n - i,
    {
        proof {
            assert(scanned[i as int] == match raw@[i as int] {
                Ok(tk) => Ok::<TokenV, ScannerError>(tk@),
                Err(e) => Err(e),
            });
        }
        match &raw[i] {
            Ok(t) => toks.push(t.clone()),
            Err(e) => {
                proof {
                    assert(scanned[i as int] == Err::<TokenV, ScannerError>(*e));
                    assert(first_scan_error(scanned, *e));
                }
                return Err(LofError::ScannerError(*e));
            },
        }
        i = i + 1;
    }
    Ok(toks)
}

/// Scan and parse a whole program.  Parse errors are collected with
/// resynchronisation; the first one is returned.  On success the program
/// is well-formed and its statements re-render to exactly the scanned
/// token list, up to its end-of-input token: the parse invents, drops and
/// reshapes nothing.
pub fn parse_program(source: &str) -> (r: Result<Program, LofError>)
    ensures
        ({
            let scanned = scan_spec(source@, 0, 0, 0);
            match r {
                Ok(p) => p.wf() && exists|toks: Seq<Token>, end: int|
                    #![trigger matches_span(toks, 0, end, unparse_program(p.nodes@, p.top@, 0))]
                    tokens_match_scan(toks, scanned) && matches_span(
                        toks,
                        0,
                        end,
                        unparse_program(p.nodes@, p.top@, 0),
                    ) && (end == toks.len() || toks[end].kind == TokenKind::Eof),
                Err(LofError::ScannerError(e)) => first_scan_error(scanned, e),
                Err(LofError::ParserError(_)) => forall|k: int|
                    0 <= k < scanned.len() ==> #[trigger] scanned[k] is Ok,
                Err(_) => false,
            }
        }),
{
    let toks = scan_source(source)?;
    let ghost toks_view = toks@;
    let parser = Parser::new(toks);
    let (program, errors) = parser.parse();
    if errors.len() > 0 {
        proof {
            let scanned = scan_spec(source@, 0, 0, 0);
            assert forall|k: int| 0 <= k < scanned.len() implies #[trigger] scanned[k] is Ok by {
                assert(scanned[k] == Ok::<TokenV, ScannerError>(toks_view[k]@));
            }
        }
        Err(LofError::ParserError(errors[0]))
    } else {
        let r: Result<Program, LofError> = Ok(program);
        proof {
            let scanned = scan_spec(source@, 0, 0, 0);
            let p = r->Ok_0;
            let end = choose|end: int|
                #[trigger] matches_span(
                    toks_view,
                    0,
                    end,
                    unparse_program(p.nodes@, p.top@, 0),
                ) && (end == toks_view.len() || toks_view[end].kind == TokenKind::Eof);
            assert(tokens_match_scan(toks_view, scanned) && matches_span(
                toks_view,
                0,
                end,
                unparse_program(p.nodes@, p.top@, 0),
            ) && (end == toks_view.len() || toks_view[end].kind == TokenKind::Eof));
            assert(exists|t2: Seq<Token>, e2: int|
                #![trigger matches_span(t2, 0, e2, unparse_program(p.nodes@, p.top@, 0))]
                tokens_match_scan(t2, scanned) && matches_span(
                    t2,
                    0,
                    e2,
                    unparse_program(p.nodes@, p.top@, 0),
                ) && (e2 == t2.len() || t2[e2].kind == TokenKind::Eof));
        }
        r
    }
}

/// Scan and parse a single expression, for REPL-style evaluation.  On
/// success the expression re-renders to exactly the leading scanned
/// tokens.
pub fn parse_expression(source: &str) -> (r: Result<ParsedExpr, LofError>)
    ensures
        ({
            let scanned = scan_spec(source@, 0, 0, 0);
            match r {
                Ok(p) => p.wf() && exists|toks: Seq<Token>, end: int|
                    #![trigger matches_span(toks, 0, end, unparse_expr(p.nodes@, p.root as int))]
                    tokens_match_scan(toks, scanned) && matches_span(
                        toks,
                        0,
                        end,
                        unparse_expr(p.nodes@, p.root as int),
                    ),
                Err(LofError::ScannerError(e)) => first_scan_error(scanned, e),
                Err(LofError::ParserError(_)) => forall|k: int|
                    0 <= k < scanned.len() ==> #[trigger] scanned[k] is Ok,
                Err(_) => false,
            }
        }),
{
    let toks = scan_source(source)?;
    let ghost toks_view = toks@;
    let mut parser = Parser::new(toks);
    match parser.expression() {
        Ok(root) => {
            let ghost fin_pos = parser.pos as int;
            let pe = ParsedExpr { nodes: parser.nodes, root };
            let r: Result<ParsedExpr, LofError> = Ok(pe);
            proof {
                let scanned = scan_spec(source@, 0, 0, 0);
                let p = r->Ok_0;
                assert(tokens_match_scan(toks_view, scanned) && matches_span(
                    toks_view,
                    0,
                    fin_pos,
                    unparse_expr(p.nodes@, p.root as int),
                ));
                assert(exists|t2: Seq<Token>, e2: int|
                    #![trigger matches_span(t2, 0, e2, unparse_expr(p.nodes@, p.root as int))]
                    tokens_match_scan(t2, scanned) && matches_span(
                        t2,
                        0,
                        e2,
                        unparse_expr(p.nodes@, p.root as int),
                    ));
            }
            r
        },
        Err(e) => {
            proof {
                let scanned = scan_spec(source@, 0, 0, 0);
                assert forall|k: int| 0 <= k < scanned.len() implies #[trigger] scanned[k]
                    is Ok by {
                    assert(scanned[k] == Ok::<TokenV, ScannerError>(toks_view[k]@));
                }
            }
            Err(LofError::ParserError(e))
        },
    }
}

/// What evaluating the expression at `root` with a fresh interpreter (no
/// resolution pass, some nonnegative clock sample) yields: the result `r`
/// is exactly what the evaluation semantics says.
pub open spec fn eval_outcome(nodes: Seq<Node>, root: int, r: Result<
    RuntimeValue,
    LofError,
>) -> bool {
    exists|t: int|
        #![trigger fresh_state(Seq::empty(), t)]
        t >= 0 && {
            let (st2, rv) = eval_expr_spec(
                nodes,
                fresh_state(Seq::empty(), t),
                root,
                EVAL_FUEL as nat,
            );
            match r {
                Ok(v) => rv == Ok::<ValueV, crate::value::UnwindV>(v@),
                Err(LofError::RuntimeError(u)) => rv == Err::<ValueV, crate::value::UnwindV>(u@),
                Err(_) => false,
            }
        }
}

/// Evaluate a single parsed expression with a fresh interpreter and no
/// prior resolution pass, so every name is looked up dynamically in the
/// global scope.
pub fn eval_expr(expr: &ParsedExpr) -> (r: Result<RuntimeValue, LofError>)
    ensures
        eval_outcome(expr.nodes@, expr.root as int, r),
{
    let mut interpreter = Interpreter::new(Resolver::default());
    let ghost t0 = interpreter@.time;
    proof {
        assert(interpreter@ =~~= fresh_state(Seq::empty(), t0));
    }
    match interpreter.eval(&expr.nodes, expr.root, EVAL_FUEL) {
        Ok(v) => Ok(v),
        Err(u) => Err(LofError::RuntimeError(u)),
    }
}

/// Parse and evaluate a single expression: a lexical error or a parse
/// error comes back as such; otherwise some expression that re-renders to
/// the leading scanned tokens was evaluated, and the result is exactly
/// what the evaluation semantics says for it.
pub fn run_expr(source: &str) -> (r: Result<RuntimeValue, LofError>)
    ensures
        ({
            let scanned = scan_spec(source@, 0, 0, 0);
            match r {
                Err(LofError::ScannerError(e)) => first_scan_error(scanned, e),
                Err(LofError::ParserError(_)) => forall|k: int|
                    0 <= k < scanned.len() ==> #[trigger] scanned[k] is Ok,
                _ => exists|nodes: Seq<Node>, root: int, toks: Seq<Token>, end: int|
                    #![trigger matches_span(toks, 0, end, unparse_expr(nodes, root))]
                    tokens_match_scan(toks, scanned) && matches_span(
                        toks,
                        0,
                        end,
                        unparse_expr(nodes, root),
                    ) && eval_outcome(nodes, root, r),
            }
        }),
{
    let expr = parse_expression(source)?;
    let r = eval_expr(&expr);
    proof {
        let scanned = scan_spec(source@, 0, 0, 0);
        let (toks, end) = choose|toks: Seq<Token>, end: int|
            #[trigger] matches_span(toks, 0, end, unparse_expr(expr.nodes@, expr.root as int))
                && tokens_match_scan(toks, scanned);
        assert(tokens_match_scan(toks, scanned) && matches_span(
            toks,
            0,
            end,
            unparse_expr(expr.nodes@, expr.root as int),
        ) && eval_outcome(expr.nodes@, expr.root as int, r));
    }
    r
}

/// What resolving and running the program yields: the resolution
/// semantics decides rejection before execution, and otherwise the
/// evaluation semantics — started from a fresh state carrying the computed
/// resolution map and some nonnegative clock sample — decides both the
/// printed lines and the error, if any.
pub open spec fn run_outcome(nodes: Seq<Node>, top: Seq<usize>, r: Result<
    Vec<String>,
    LofError,
>) -> bool {
    let rres = resolve_stmts_spec(
        nodes,
        ResolverV { scopes: Seq::empty(), resolutions: Seq::empty() },
        top,
        0,
        nodes.len() as int,
    );
    match rres {
        Err(er) => match r {
            Err(LofError::ResolverError(e)) => e@ == er,
            _ => false,
        },
        Ok(rv) => exists|t: int|
            #![trigger fresh_state(rv.resolutions, t)]
            t >= 0 && {
                let (st2, res) = exec_stmts_spec(
                    nodes,
                    fresh_state(rv.resolutions, t),
                    top,
                    0,
                    EVAL_FUEL as nat,
                );
                match r {
                    Ok(out) => res is Ok && crate::interpreter::output_view(out@) == st2.output,
                    Err(LofError::RuntimeError(u)) => res == Err::<(), _>(u@),
                    Err(_) => false,
                }
            },
    }
}

/// Resolve and run a parsed program, returning the lines its `print`
/// statements produced; the result is exactly what the resolution and
/// evaluation semantics say (`run_outcome`).
pub fn run_program(program: &Program) -> (r: Result<Vec<String>, LofError>)
    requires
        program.wf(),
    ensures
        run_outcome(program.nodes@, program.top@, r),
{
    let mut resolver = Resolver::default();
    proof {
        assert(resolver@ =~~= ResolverV { scopes: Seq::empty(), resolutions: Seq::empty() });
    }
    let ghost rres = resolve_stmts_spec(
        program.nodes@,
        ResolverV { scopes: Seq::empty(), resolutions: Seq::empty() },
        program.top@,
        0,
        program.nodes@.len() as int,
    );
    match resolver.resolver_pass(program) {
        Err(e) => {
            return Err(LofError::ResolverError(e));
        },
        Ok(_) => {},
    }
    proof {
        assert(rres == Ok::<ResolverV, crate::resolver::ResolveErrV>(resolver@));
    }
    let ghost resolutions = resolver@.resolutions;
    let mut interpreter = Interpreter::new(resolver);
    let ghost t0 = interpreter@.time;
    proof {
        assert(interpreter@ =~~= fresh_state(resolutions, t0));
    }
    match interpreter.interpret(program, EVAL_FUEL) {
        Ok(_) => {
            proof {
                let rres2 = resolve_stmts_spec(
                    program.nodes@,
                    ResolverV { scopes: Seq::empty(), resolutions: Seq::empty() },
                    program.top@,
                    0,
                    program.nodes@.len() as int,
                );
                assert(match rres2 {
                    Ok(x) => x.resolutions == resolutions,
                    Err(_) => false,
                });
                assert(t0 >= 0);
                let rv2 = rres2->Ok_0;
                let (st2, res) = exec_stmts_spec(
                    program.nodes@,
                    fresh_state(resolutions, t0),
                    program.top@,
                    0,
                    EVAL_FUEL as nat,
                );
                assert(res is Ok);
                assert(interpreter@.output == st2.output);
                assert(crate::interpreter::output_view(interpreter.output@) == st2.output);
                assert(fresh_state(rv2.resolutions, t0) == fresh_state(resolutions, t0));
            }
            Ok(interpreter.output)
        },
        Err(u) => {
            proof {
                let rres2 = resolve_stmts_spec(
                    program.nodes@,
                    ResolverV { scopes: Seq::empty(), resolutions: Seq::empty() },
                    program.top@,
                    0,
                    program.nodes@.len() as int,
                );
                let rv2 = rres2->Ok_0;
                let (st2, res) = exec_stmts_spec(
                    program.nodes@,
                    fresh_state(resolutions, t0),
                    program.top@,
                    0,
                    EVAL_FUEL as nat,
                );
                assert(res == Err::<(), crate::value::UnwindV>(u@));
                assert(fresh_state(rv2.resolutions, t0) == fresh_state(resolutions, t0));
            }
            Err(LofError::RuntimeError(u))
        },
    }
}

/// Scan, parse, resolve and run a program; the result carries the lines
/// its `print` statements produced, in order.  A lexical or parse error
/// comes back as such; otherwise some well-formed program whose statements
/// re-render to exactly the scanned token list was run, and the resolution
/// and evaluation semantics decide the outcome (`run_outcome`).
pub fn run_code(source: &str) -> (r: Result<Vec<String>, LofError>)
    ensures
        ({
            let scanned = scan_spec(source@, 0, 0, 0);
            match r {
                Err(LofError::ScannerError(e)) => first_scan_error(scanned, e),
                Err(LofError::ParserError(_)) => forall|k: int|
                    0 <= k < scanned.len() ==> #[trigger] scanned[k] is Ok,
                _ => exists|nodes: Seq<Node>, top: Seq<usize>, toks: Seq<Token>, end: int|
                    #![trigger matches_span(toks, 0, end, unparse_program(nodes, top, 0))]
                    crate::ast::wf_nodes(nodes) && tokens_match_scan(toks, scanned)
                        && matches_span(toks, 0, end, unparse_program(nodes, top, 0)) && (end
                        == toks.len() || toks[end].kind == TokenKind::Eof) && run_outcome(
                        nodes,
                        top,
                        r,
                    ),
            }
        }),
{
    let program = parse_program(source)?;
    let r = run_program(&program);
    proof {
        let scanned = scan_spec(source@, 0, 0, 0);
        let (toks, end) = choose|toks: Seq<Token>, end: int|
            #[trigger] matches_span(
                toks,
                0,
                end,
                unparse_program(program.nodes@, program.top@, 0),
            ) && tokens_match_scan(toks, scanned) && (end == toks.len() || toks[end].kind
                == TokenKind::Eof);
        assert(crate::ast::wf_nodes(program.nodes@) && tokens_match_scan(toks, scanned)
            && matches_span(toks, 0, end, unparse_program(program.nodes@, program.top@, 0)) && (
        end == toks.len() || toks[end].kind == TokenKind::Eof) && run_outcome(
            program.nodes@,
            program.top@,
            r,
        ));
    }
    r
}

} // verus!
