//! The two error taxonomies of the language, kept distinct: parse errors
//! are recoverable values returned to the caller; evaluation errors are
//! typed faults that abort the run and are propagated, never panicked.

use vstd::prelude::*;

use crate::token::Token;

verus! {

/// A structural failure while parsing: the offending token, or an
/// internal condition that should never be reached.
#[derive(Debug, PartialEq)]
pub enum ParseError {
    UnexpectedToken(Token),
    Unreachable,
}

/// The wording of each parse error.
pub open spec fn spec_parse_error_message(e: ParseError) -> Seq<char> {
    match e {
        ParseError::UnexpectedToken(_) => "Unexpected token."@,
        ParseError::Unreachable => "Entered unreachable code."@,
    }
}

impl ParseError {
    /// A short description of this error.
    pub fn message(&self) -> (r: String)
        ensures
            r@ == spec_parse_error_message(*self),
    {
        match self {
            ParseError::UnexpectedToken(_) => "Unexpected token.".to_owned(),
            ParseError::Unreachable => "Entered unreachable code.".to_owned(),
        }
    }
}

/// A fault during evaluation: a typed, fatal condition that travels up
/// through every statement and expression to the run's caller, which
/// decides how to report it; the library itself never panics on one.
#[derive(Debug, Clone, Copy, PartialEq, Eq, Structural)]
pub enum EvalError {
    /// An identifier was read that no variable binding defines.
    UndefinedVariable,
    /// A call named neither a builtin nor a declared function.
    UndefinedFunction,
    /// The callee of a call was not an identifier.
    CalleeNotIdentifier,
    /// The left side of an assignment was not an identifier.
    AssignTargetNotIdentifier,
    /// An assignment named a variable that was never declared.
    AssignToUndefined,
    /// A `let` whose initializer is missing or produced no value.
    LetWithoutValue,
    /// An `if` condition that produced no value.
    ConditionWithoutValue,
    /// An `if` condition that produced a non-boolean value.
    ConditionNotBoolean,
    /// A loop header whose iterable did not produce a list.
    IterableNotList,
    /// A call with more or fewer arguments than declared parameters.
    ArityMismatch,
    /// A call argument that produced no value.
    ArgumentWithoutValue,
    /// A list element that produced no value.
    ElementWithoutValue,
    /// An operator applied to operand types it is not defined over.
    UnsupportedOperation,
    /// A `break` that no enclosing loop consumed.
    BreakOutsideLoop,
    /// The `Break` sentinel used where a value was expected.
    BreakExpression,
    /// A builtin handed a value it cannot render or coerce.
    InvalidBuiltinArgument,
    /// The command builtin called with no command name.
    EmptyCommand,
    /// Integer arithmetic left the representable range.
    Overflow,
    /// Division or remainder by zero.
    DivisionByZero,
    /// The step budget of the run was exhausted.
    OutOfFuel,
}

/// The wording of each evaluation error.
pub open spec fn spec_eval_error_message(e: EvalError) -> Seq<char> {
    match e {
        EvalError::UndefinedVariable => "Wrong identifier."@,
        EvalError::UndefinedFunction => "Enter proper function name."@,
        EvalError::CalleeNotIdentifier => "Enter proper function name."@,
        EvalError::AssignTargetNotIdentifier => "Expected identifier."@,
        EvalError::AssignToUndefined => "Assignment to undeclared variable."@,
        EvalError::LetWithoutValue => "Cannot use let without value."@,
        EvalError::ConditionWithoutValue => "Condition does not return value."@,
        EvalError::ConditionNotBoolean => "Must be true or false conditional value."@,
        EvalError::IterableNotList => "Insert proper iterator."@,
        EvalError::ArityMismatch => "Provide necessary arguments."@,
        EvalError::ArgumentWithoutValue => "Argument does not return value."@,
        EvalError::ElementWithoutValue => "List element does not return value."@,
        EvalError::UnsupportedOperation => "Unsupported operation."@,
        EvalError::BreakOutsideLoop => "Break outside of a loop."@,
        EvalError::BreakExpression => "Break is not a value."@,
        EvalError::InvalidBuiltinArgument => "Enter proper arguments."@,
        EvalError::EmptyCommand => "Provide a command name."@,
        EvalError::Overflow => "Number out of range."@,
        EvalError::DivisionByZero => "Division by zero."@,
        EvalError::OutOfFuel => "Step budget exhausted."@,
    }
}

impl EvalError {
    /// A short description of this error.
    pub fn message(&self) -> (r: String)
        ensures
            r@ == spec_eval_error_message(*self),
    {
        match self {
            EvalError::UndefinedVariable => "Wrong identifier.".to_owned(),
            EvalError::UndefinedFunction => "Enter proper function name.".to_owned(),
            EvalError::CalleeNotIdentifier => "Enter proper function name.".to_owned(),
            EvalError::AssignTargetNotIdentifier => "Expected identifier.".to_owned(),
            EvalError::AssignToUndefined => "Assignment to undeclared variable.".to_owned(),
            EvalError::LetWithoutValue => "Cannot use let without value.".to_owned(),
            EvalError::ConditionWithoutValue => "Condition does not return value.".to_owned(),
            EvalError::ConditionNotBoolean => "Must be true or false conditional value.".to_owned(),
            EvalError::IterableNotList => "Insert proper iterator.".to_owned(),
            EvalError::ArityMismatch => "Provide necessary arguments.".to_owned(),
            EvalError::ArgumentWithoutValue => "Argument does not return value.".to_owned(),
            EvalError::ElementWithoutValue => "List element does not return value.".to_owned(),
            EvalError::UnsupportedOperation => "Unsupported operation.".to_owned(),
            EvalError::BreakOutsideLoop => "Break outside of a loop.".to_owned(),
            EvalError::BreakExpression => "Break is not a value.".to_owned(),
            EvalError::InvalidBuiltinArgument => "Enter proper arguments.".to_owned(),
            EvalError::EmptyCommand => "Provide a command name.".to_owned(),
            EvalError::Overflow => "Number out of range.".to_owned(),
            EvalError::DivisionByZero => "Division by zero.".to_owned(),
            EvalError::OutOfFuel => "Step budget exhausted.".to_owned(),
        }
    }
}

} // verus!
