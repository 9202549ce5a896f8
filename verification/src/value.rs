//! Runtime values and the unwind channel.  A value is a tagged union over
//! strings, integers, booleans, callables, classes, instances, integer
//! ranges and unit.  Functions and classes refer to their declaration node
//! and captured environment scope by index, so values never copy any part of
//! the syntax tree.
//!
//! `ValueV` is the specification-level image of a value: the same shape with
//! mathematical strings.  The interpreter's whole contract is stated over
//! these images.

use vstd::prelude::*;
use vstd::string::StringExecFns;

use crate::text::{format_i64, int_display};

verus! {

/// The built-in native functions installed in the global scope.
#[derive(Debug, Clone, Copy, PartialEq, Eq, Structural)]
pub enum NativeFn {
    /// Zero-argument clock: milliseconds since the epoch, sampled when the
    /// interpreter was created.
    Time,
    /// Two-argument assertion: fails with an assertion error carrying its
    /// message when the condition is false.
    Assert,
}

/// A runtime value.
#[derive(Debug)]
pub enum RuntimeValue {
    Str(String),
    Integer(i64),
    Bool(bool),
    /// A closure: the arena index of its `Fn` declaration node and the index
    /// of the environment scope captured at its definition site.
    Function { decl: usize, env: usize },
    Native(NativeFn),
    /// A class: the arena index of its `Class` declaration node and the
    /// scope in which the class was declared (methods close over it).
    Class { decl: usize, env: usize },
    /// An instance: an index into the interpreter's instance table.
    Instance(usize),
    /// A half-open integer range `a..b`.
    Range(i64, i64),
    Unit,
}

impl Clone for RuntimeValue {
    fn clone(&self) -> (r: Self)
        ensures
            r == *self,
    {
        match self {
            RuntimeValue::Str(s) => RuntimeValue::Str(s.clone()),
            RuntimeValue::Integer(n) => RuntimeValue::Integer(*n),
            RuntimeValue::Bool(b) => RuntimeValue::Bool(*b),
            RuntimeValue::Function { decl, env } => RuntimeValue::Function {
                decl: *decl,
                env: *env,
            },
            RuntimeValue::Native(f) => RuntimeValue::Native(*f),
            RuntimeValue::Class { decl, env } => RuntimeValue::Class { decl: *decl, env: *env },
            RuntimeValue::Instance(i) => RuntimeValue::Instance(*i),
            RuntimeValue::Range(a, b) => RuntimeValue::Range(*a, *b),
            RuntimeValue::Unit => RuntimeValue::Unit,
        }
    }
}

/// The specification-level image of a runtime value.
pub enum ValueV {
    Str(Seq<char>),
    Int(int),
    Bool(bool),
    Function { decl: int, env: int },
    Native(NativeFn),
    Class { decl: int, env: int },
    Instance(int),
    Range(int, int),
    Unit,
}

impl View for RuntimeValue {
    type V = ValueV;

    open spec fn view(&self) -> ValueV {
        match self {
            RuntimeValue::Str(s) => ValueV::Str(s@),
            RuntimeValue::Integer(n) => ValueV::Int(*n as int),
            RuntimeValue::Bool(b) => ValueV::Bool(*b),
            RuntimeValue::Function { decl, env } => ValueV::Function {
                decl: *decl as int,
                env: *env as int,
            },
            RuntimeValue::Native(f) => ValueV::Native(*f),
            RuntimeValue::Class { decl, env } => ValueV::Class {
                decl: *decl as int,
                env: *env as int,
            },
            RuntimeValue::Instance(i) => ValueV::Instance(*i as int),
            RuntimeValue::Range(a, b) => ValueV::Range(*a as int, *b as int),
            RuntimeValue::Unit => ValueV::Unit,
        }
    }
}

/// A runtime error.  Every one of these aborts the running program; none is
/// caught by the evaluator itself.
#[derive(Debug)]
pub enum RuntimeError {
    /// A name was bound nowhere in the environment chain searched.
    UndefinedVariable(String),
    /// The `assert` builtin was called with a false condition; carries the
    /// message it was given.
    AssertionError(String),
    /// An operation was applied to values whose tags it is not defined for,
    /// a non-callable was called, or an arity was wrong.
    TypeError,
    /// Integer division by zero.
    DivisionByZero,
    /// The evaluator's recursion budget ran out; the analogue of exhausting
    /// the host call stack.
    RecursionLimit,
}

/// The specification-level image of a runtime error.
pub enum ErrorV {
    UndefinedVariable(Seq<char>),
    AssertionError(Seq<char>),
    TypeError,
    DivisionByZero,
    RecursionLimit,
}

impl View for RuntimeError {
    type V = ErrorV;

    open spec fn view(&self) -> ErrorV {
        match self {
            RuntimeError::UndefinedVariable(n) => ErrorV::UndefinedVariable(n@),
            RuntimeError::AssertionError(m) => ErrorV::AssertionError(m@),
            RuntimeError::TypeError => ErrorV::TypeError,
            RuntimeError::DivisionByZero => ErrorV::DivisionByZero,
            RuntimeError::RecursionLimit => ErrorV::RecursionLimit,
        }
    }
}

/// The non-local propagation channel: a genuine error, or a `return` carrying
/// its value up to the nearest enclosing call boundary.
#[derive(Debug)]
pub enum RuntimeUnwind {
    Error(RuntimeError),
    Return(RuntimeValue),
}

/// The specification-level image of an unwind signal.
pub enum UnwindV {
    Error(ErrorV),
    Return(ValueV),
}

impl View for RuntimeUnwind {
    type V = UnwindV;

    open spec fn view(&self) -> UnwindV {
        match self {
            RuntimeUnwind::Error(e) => UnwindV::Error(e@),
            RuntimeUnwind::Return(v) => UnwindV::Return(v@),
        }
    }
}

/// What evaluating an expression yields.
pub type RuntimeResult = Result<RuntimeValue, RuntimeUnwind>;

/// The specification-level image of an evaluation outcome.
pub type ResultV = Result<ValueV, UnwindV>;

/// The image of an exec evaluation outcome.
pub open spec fn result_view(r: RuntimeResult) -> ResultV {
    match r {
        Ok(v) => Ok(v@),
        Err(u) => Err(u@),
    }
}

/// The image of an exec statement outcome.
pub open spec fn unit_result_view(r: Result<(), RuntimeUnwind>) -> Result<(), UnwindV> {
    match r {
        Ok(_) => Ok(()),
        Err(u) => Err(u@),
    }
}

/// How `print` renders a value, at the specification level.
pub open spec fn display_of(v: ValueV) -> Seq<char> {
    match v {
        ValueV::Str(s) => s,
        ValueV::Int(i) => int_display(i),
        ValueV::Bool(b) => if b {
            "true"@
        } else {
            "false"@
        },
        ValueV::Function { .. } => "<fn>"@,
        ValueV::Native(_) => "<native fn>"@,
        ValueV::Class { .. } => "<class>"@,
        ValueV::Instance(_) => "<instance>"@,
        ValueV::Range(a, b) => int_display(a) + ".."@ + int_display(b),
        ValueV::Unit => "()"@,
    }
}

impl RuntimeValue {
    /// The rendering `print` gives this value.
    pub fn display(&self) -> (r: String)
        ensures
            r@ == display_of(self@),
    {
        match self {
            RuntimeValue::Str(s) => s.clone(),
            RuntimeValue::Integer(n) => format_i64(*n),
            RuntimeValue::Bool(b) => {
                if *b {
                    "true".to_owned()
                } else {
                    "false".to_owned()
                }
            },
            RuntimeValue::Function { .. } => "<fn>".to_owned(),
            RuntimeValue::Native(_) => "<native fn>".to_owned(),
            RuntimeValue::Class { .. } => "<class>".to_owned(),
            RuntimeValue::Instance(_) => "<instance>".to_owned(),
            RuntimeValue::Range(a, b) => {
                let s = format_i64(*a);
                let s = s.concat("..");
                s.concat(format_i64(*b).as_str())
            },
            RuntimeValue::Unit => "()".to_owned(),
        }
    }
}

} // verus!
