//! Error kinds of every stage. All of them are fatal.
use crate::ast::{BType, FuncType};
use vstd::prelude::*;

verus! {

#[derive(Debug, Clone, PartialEq, Eq)]
pub enum SemanticError {
    /// A name declared twice in one block.
    Redeclared(String),
    /// A name that no enclosing block declares.
    Undefined(String),
    /// Assignment to a constant or a function.
    NotAssignable(String),
    TypeMismatch { expected: BType, found: FuncType },
    /// An operator applied to a musical value, or a musical value built
    /// from more than one operand.
    NonArithmeticOperand,
    ArityMismatch(String),
    UnknownFunction(String),
    ReturnOutsideFunction,
    ReturnTypeMismatch,
    /// `break` or `continue` outside a loop.
    LoopOnlyKeyword,
}

#[derive(Debug, Clone, PartialEq, Eq)]
pub enum RuntimeError {
    /// Division or remainder by zero.
    ArithmeticError,
    /// A non-void function ended without `return`.
    MissingReturn,
    BadChannel,
    BadInstrument,
    BadTimeSignature,
    BadTempo,
    /// A duration that does not fit the tick counters.
    TickOverflow,
    /// A value of the wrong kind where another was needed.
    TypeError,
    /// The evaluation depth bound was reached.
    EvaluationLimit,
    /// The MIDI writer refused an event.
    MidiWriter,
}

#[derive(Debug, Clone, PartialEq, Eq)]
pub enum InternalError {
    /// A name with no binding at run time.
    Unbound,
    /// An expression node with no operands, or operators and operands that
    /// do not pair up.
    MalformedExpr,
    /// A call whose argument count differs from the definition's.
    ArityMismatch,
    /// `break` or `continue` that escaped a function body.
    StrayJump,
    /// The analyzer's nesting bound was reached.
    NestingLimit,
}

#[derive(Debug, Clone, PartialEq, Eq)]
pub enum Error {
    ParseError(String),
    SemanticError(SemanticError),
    RuntimeError(RuntimeError),
    InternalError(InternalError),
}

} // verus!
