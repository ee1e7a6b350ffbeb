//! The meaning of the language: a definitional interpreter written as
//! spec functions over the model types.
//!
//! Every function takes a fuel bound on recursion depth and loop steps;
//! a run that would exceed it ends in `EvalError::OutOfFuel`. For every
//! fuel value, these functions say exactly which value, state and effect
//! trace a program yields, or which evaluation error stops it — the
//! executable interpreter is proved equal to them, case by case.
//!
//! Scoping follows the environment model: a loop body works on a copy of
//! the surrounding variables, and when the loop ends only the names that
//! existed before it keep their (possibly updated) values; a call frame
//! starts from the parameter bindings alone and gives nothing back but
//! the effect trace and the returned value.

use vstd::prelude::*;

use crate::ast::{ExpressionV, Op, StatementV};
use crate::env::ProgramV;
use crate::errors::EvalError;
use crate::stdlib::{spec_builtin, EffectV, Std};

verus! {

/// What executing a statement hands to the enclosing block: nothing, a
/// propagating return value, or the break sentinel.
pub enum SignalV {
    Normal,
    Returned(ExpressionV),
    Broken,
}

/// The whole interpreter state: the read-only builtin registry, the
/// declared functions, the variables of the current scope, and the trace
/// of effects requested so far.
#[verifier::ext_equal]
pub struct StateV {
    pub globals: Map<Seq<char>, Std>,
    pub funcs: Map<Seq<char>, ProgramV>,
    pub vars: Map<Seq<char>, ExpressionV>,
    pub out: Seq<EffectV>,
}

/// The state a loop statement leaves behind: the child's variables cut
/// back to the names that existed when the scope opened, the parent's
/// functions, and the child's effect trace.
pub open spec fn merge_scope(parent: StateV, child: StateV) -> StateV {
    StateV {
        globals: parent.globals,
        funcs: parent.funcs,
        vars: child.vars.restrict(parent.vars.dom()),
        out: child.out,
    }
}

/// A finished loop converts the break sentinel into no signal and lets a
/// return signal travel on.
pub open spec fn loop_result_signal(sig: SignalV) -> SignalV {
    match sig {
        SignalV::Broken => SignalV::Normal,
        s => s,
    }
}

/// Truncating division, as the number type of the language rounds: the
/// quotient of the magnitudes, with the sign of the exact quotient.
pub open spec fn trunc_div(x: int, d: int) -> int {
    if x == 0 {
        0
    } else if x > 0 && d > 0 {
        x / d
    } else if x < 0 && d < 0 {
        (x * -1) / (d * -1)
    } else if x < 0 {
        ((x * -1) / d) * -1
    } else {
        (x / (d * -1)) * -1
    }
}

/// The remainder matching `trunc_div`: it carries the sign of the
/// dividend.
pub open spec fn trunc_rem(x: int, d: int) -> int {
    if x == 0 {
        0
    } else if x > 0 && d > 0 {
        x % d
    } else if x < 0 && d < 0 {
        ((x * -1) % (d * -1)) * -1
    } else if x < 0 {
        ((x * -1) % d) * -1
    } else {
        x % (d * -1)
    }
}

/// True when `n` fits the number type of the language.
pub open spec fn in_number_range(n: int) -> bool {
    i64::MIN <= n <= i64::MAX
}

/// The operator table: which operand-type pairs each infix operator is
/// defined over, and what it yields there. Arithmetic that leaves the
/// number range is an overflow error; division and remainder by zero are
/// errors; every pairing outside the table is an unsupported operation.
pub open spec fn spec_infix(l: ExpressionV, op: Op, r: ExpressionV) -> Result<
    ExpressionV,
    EvalError,
> {
    match (l, op, r) {
        (ExpressionV::Number(a), Op::Add, ExpressionV::Number(b)) => if in_number_range(a + b) {
            Ok(ExpressionV::Number(a + b))
        } else {
            Err(EvalError::Overflow)
        },
        (ExpressionV::Number(a), Op::Subtract, ExpressionV::Number(b)) => if in_number_range(
            a - b,
        ) {
            Ok(ExpressionV::Number(a - b))
        } else {
            Err(EvalError::Overflow)
        },
        (ExpressionV::Number(a), Op::Multiply, ExpressionV::Number(b)) => if in_number_range(
            a * b,
        ) {
            Ok(ExpressionV::Number(a * b))
        } else {
            Err(EvalError::Overflow)
        },
        (ExpressionV::Number(a), Op::Divide, ExpressionV::Number(b)) => if b == 0 {
            Err(EvalError::DivisionByZero)
        } else if in_number_range(trunc_div(a, b)) {
            Ok(ExpressionV::Number(trunc_div(a, b)))
        } else {
            Err(EvalError::Overflow)
        },
        (ExpressionV::Number(a), Op::Modulo, ExpressionV::Number(b)) => if b == 0 {
            Err(EvalError::DivisionByZero)
        } else if a == i64::MIN && b == -1 {
            Err(EvalError::Overflow)
        } else {
            Ok(ExpressionV::Number(trunc_rem(a, b)))
        },
        (ExpressionV::Number(a), Op::Equals, ExpressionV::Number(b)) => Ok(
            ExpressionV::Boolean(a == b),
        ),
        (ExpressionV::Number(a), Op::NotEquals, ExpressionV::Number(b)) => Ok(
            ExpressionV::Boolean(a != b),
        ),
        (ExpressionV::Number(a), Op::LessThan, ExpressionV::Number(b)) => Ok(
            ExpressionV::Boolean(a < b),
        ),
        (ExpressionV::Number(a), Op::GreaterThan, ExpressionV::Number(b)) => Ok(
            ExpressionV::Boolean(a > b),
        ),
        (ExpressionV::Number(a), Op::LessThanOrEquals, ExpressionV::Number(b)) => Ok(
            ExpressionV::Boolean(a <= b),
        ),
        (ExpressionV::Number(a), Op::GreaterThanOrEquals, ExpressionV::Number(b)) => Ok(
            ExpressionV::Boolean(a >= b),
        ),
        (ExpressionV::Boolean(a), Op::And, ExpressionV::Boolean(b)) => Ok(
            ExpressionV::Boolean(a && b),
        ),
        (ExpressionV::Boolean(a), Op::Or, ExpressionV::Boolean(b)) => Ok(
            ExpressionV::Boolean(a || b),
        ),
        (ExpressionV::String(a), Op::Equals, ExpressionV::String(b)) => Ok(
            ExpressionV::Boolean(a == b),
        ),
        _ => Err(EvalError::UnsupportedOperation),
    }
}

/// The prefix operator table: `!` negates a boolean, `-` negates a
/// number; everything else is an unsupported operation.
pub open spec fn spec_prefix(op: Op, v: ExpressionV) -> Result<ExpressionV, EvalError> {
    match (op, v) {
        (Op::Not, ExpressionV::Boolean(b)) => Ok(ExpressionV::Boolean(!b)),
        (Op::Subtract, ExpressionV::Number(n)) => if in_number_range(-n) {
            Ok(ExpressionV::Number(-n))
        } else {
            Err(EvalError::Overflow)
        },
        _ => Err(EvalError::UnsupportedOperation),
    }
}

/// The variable mapping of a fresh call frame: each parameter bound to
/// its argument, in order, later bindings of a repeated name winning.
pub open spec fn bind_params(params: Seq<Seq<char>>, args: Seq<ExpressionV>) -> Map<
    Seq<char>,
    ExpressionV,
>
    decreases params.len(),
{
    if params.len() == 0 {
        Map::empty()
    } else {
        bind_params(params.drop_last(), args.drop_last()).insert(params.last(), args.last())
    }
}

/// Evaluates the expression `e` in state `st`: the value it produces (an
/// assignment, a builtin call or a function that falls off its body
/// produce none), and the state it leaves.
pub open spec fn spec_eval(fuel: nat, st: StateV, e: ExpressionV) -> Result<
    (Option<ExpressionV>, StateV),
    EvalError,
>
    decreases fuel, 4int,
{
    if fuel == 0 {
        Err(EvalError::OutOfFuel)
    } else {
        let f = (fuel - 1) as nat;
        match e {
            ExpressionV::Number(_) => Ok((Some(e), st)),
            ExpressionV::String(_) => Ok((Some(e), st)),
            ExpressionV::Boolean(_) => Ok((Some(e), st)),
            ExpressionV::Identifier(n) => if st.vars.contains_key(n) {
                Ok((Some(st.vars[n]), st))
            } else {
                Err(EvalError::UndefinedVariable)
            },
            ExpressionV::Infix(l, op, r) => match spec_eval(f, st, *l) {
                Err(e1) => Err(e1),
                Ok((Option::None, st1)) => Ok((Option::None, st1)),
                Ok((Option::Some(lv), st1)) => match spec_eval(f, st1, *r) {
                    Err(e2) => Err(e2),
                    Ok((Option::None, st2)) => Ok((Option::None, st2)),
                    Ok((Option::Some(rv), st2)) => match spec_infix(lv, op, rv) {
                        Ok(v) => Ok((Option::Some(v), st2)),
                        Err(e3) => Err(e3),
                    },
                },
            },
            ExpressionV::Prefix(op, x) => match spec_eval(f, st, *x) {
                Err(e1) => Err(e1),
                Ok((Option::None, st1)) => Ok((Option::None, st1)),
                Ok((Option::Some(v), st1)) => match spec_prefix(op, v) {
                    Ok(v2) => Ok((Option::Some(v2), st1)),
                    Err(e2) => Err(e2),
                },
            },
            ExpressionV::List(items) => match spec_eval_elements(f, st, items) {
                Err(e1) => Err(e1),
                Ok((Option::None, _)) => Err(EvalError::ElementWithoutValue),
                Ok((Option::Some(vals), st1)) => Ok((
                    Option::Some(ExpressionV::List(vals)),
                    st1,
                )),
            },
            ExpressionV::Assign(target, value) => match spec_eval(f, st, *value) {
                Err(e1) => Err(e1),
                Ok((Option::None, st1)) => Ok((Option::None, st1)),
                Ok((Option::Some(v), st1)) => match *target {
                    ExpressionV::Identifier(n) => if st1.vars.contains_key(n) {
                        Ok((Option::None, StateV { vars: st1.vars.insert(n, v), ..st1 }))
                    } else {
                        Err(EvalError::AssignToUndefined)
                    },
                    _ => Err(EvalError::AssignTargetNotIdentifier),
                },
            },
            ExpressionV::Call(callee, args) => match *callee {
                ExpressionV::Identifier(n) => spec_call_by_name(f, st, n, args),
                _ => Err(EvalError::CalleeNotIdentifier),
            },
            ExpressionV::Break => Err(EvalError::BreakExpression),
        }
    }
}

/// Evaluates the expressions `items` left to right: stops at the first
/// error; an element that produces no value yields `None`, which the
/// list literal and the call both treat as a fatal fault of their own.
pub open spec fn spec_eval_elements(fuel: nat, st: StateV, items: Seq<ExpressionV>) -> Result<
    (Option<Seq<ExpressionV>>, StateV),
    EvalError,
>
    decreases fuel, 0int,
{
    if items.len() == 0 {
        Ok((Option::Some(Seq::empty()), st))
    } else if fuel == 0 {
        Err(EvalError::OutOfFuel)
    } else {
        let f = (fuel - 1) as nat;
        match spec_eval(f, st, items[0]) {
            Err(e1) => Err(e1),
            Ok((Option::None, st1)) => Ok((Option::None, st1)),
            Ok((Option::Some(v), st1)) => match spec_eval_elements(f, st1, items.drop_first()) {
                Err(e2) => Err(e2),
                Ok((Option::None, st2)) => Ok((Option::None, st2)),
                Ok((Option::Some(rest), st2)) => Ok((Option::Some(seq![v] + rest), st2)),
            },
        }
    }
}

/// Evaluates call arguments left to right: like a list literal, except
/// that an argument producing no value is an error.
pub open spec fn spec_eval_arguments(fuel: nat, st: StateV, args: Seq<ExpressionV>) -> Result<
    (Seq<ExpressionV>, StateV),
    EvalError,
>
    decreases fuel, 1int,
{
    match spec_eval_elements(fuel, st, args) {
        Err(e1) => Err(e1),
        Ok((Option::None, _)) => Err(EvalError::ArgumentWithoutValue),
        Ok((Option::Some(vals), st1)) => Ok((vals, st1)),
    }
}

/// Resolves the call target `n` — builtins first, then declared
/// functions — evaluates the arguments eagerly, and dispatches: a
/// builtin appends its effect to the trace and yields no value; a
/// declared function runs in a fresh frame.
pub open spec fn spec_call_by_name(fuel: nat, st: StateV, n: Seq<char>, args: Seq<ExpressionV>) -> Result<
    (Option<ExpressionV>, StateV),
    EvalError,
>
    decreases fuel, 3int,
{
    if st.globals.contains_key(n) {
        match spec_eval_arguments(fuel, st, args) {
            Err(e1) => Err(e1),
            Ok((vals, st1)) => match spec_builtin(st.globals[n], vals) {
                Err(e2) => Err(e2),
                Ok(eff) => Ok((Option::None, StateV { out: st1.out.push(eff), ..st1 })),
            },
        }
    } else if st.funcs.contains_key(n) {
        match spec_eval_arguments(fuel, st, args) {
            Err(e1) => Err(e1),
            Ok((vals, st1)) => spec_call(fuel, st1, st.funcs[n], vals),
        }
    } else {
        Err(EvalError::UndefinedFunction)
    }
}

/// Calls the function `prog` on the evaluated arguments `args`: checks
/// arity, runs the body in a fresh frame that inherits functions,
/// builtins and the effect trace but no variables, and unwraps the
/// body's signal into the call's result.
pub open spec fn spec_call(fuel: nat, st: StateV, prog: ProgramV, args: Seq<ExpressionV>) -> Result<
    (Option<ExpressionV>, StateV),
    EvalError,
>
    decreases fuel, 2int,
{
    if fuel == 0 {
        Err(EvalError::OutOfFuel)
    } else if args.len() != prog.params.len() {
        Err(EvalError::ArityMismatch)
    } else {
        let child = StateV {
            globals: st.globals,
            funcs: st.funcs,
            vars: bind_params(prog.params, args),
            out: st.out,
        };
        match spec_run_block((fuel - 1) as nat, child, prog.body) {
            Err(e1) => Err(e1),
            Ok((sig, st2)) => {
                let back = StateV { globals: st.globals, funcs: st.funcs, vars: st.vars, out: st2.out };
                match sig {
                    SignalV::Normal => Ok((Option::None, back)),
                    SignalV::Returned(v) => Ok((Option::Some(v), back)),
                    SignalV::Broken => Err(EvalError::BreakOutsideLoop),
                }
            },
        }
    }
}

/// Executes the statement `s` in state `st`: the signal it produces and
/// the state it leaves.
pub open spec fn spec_run_stmt(fuel: nat, st: StateV, s: StatementV) -> Result<
    (SignalV, StateV),
    EvalError,
>
    decreases fuel, 4int,
{
    if fuel == 0 {
        Err(EvalError::OutOfFuel)
    } else {
        let f = (fuel - 1) as nat;
        match s {
            StatementV::Let { name, initial } => match initial {
                Option::None => Err(EvalError::LetWithoutValue),
                Option::Some(e) => match spec_eval(f, st, e) {
                    Err(e1) => Err(e1),
                    Ok((Option::None, _)) => Err(EvalError::LetWithoutValue),
                    Ok((Option::Some(v), st1)) => Ok((
                        SignalV::Normal,
                        StateV { vars: st1.vars.insert(name, v), ..st1 },
                    )),
                },
            },
            StatementV::FunctionDeclaration { name, params, body } => Ok((
                SignalV::Normal,
                StateV { funcs: st.funcs.insert(name, ProgramV { params, body }), ..st },
            )),
            StatementV::If { condition, then, otherwise } => match spec_eval(f, st, condition) {
                Err(e1) => Err(e1),
                Ok((Option::None, _)) => Err(EvalError::ConditionWithoutValue),
                Ok((Option::Some(ExpressionV::Boolean(c)), st1)) => if c {
                    spec_run_block(f, st1, then)
                } else {
                    match otherwise {
                        Option::Some(b) => spec_run_block(f, st1, b),
                        Option::None => Ok((SignalV::Normal, st1)),
                    }
                },
                Ok((Option::Some(_), _)) => Err(EvalError::ConditionNotBoolean),
            },
            StatementV::Loop { binding, then } => match binding {
                Option::Some(lb) => match spec_eval(f, st, lb.iterable) {
                    Err(e1) => Err(e1),
                    Ok((Option::Some(ExpressionV::List(items)), st1)) => match spec_loop_items(
                        f,
                        st1,
                        lb.value,
                        items,
                        then,
                    ) {
                        Err(e2) => Err(e2),
                        Ok((sig, st2)) => Ok((loop_result_signal(sig), merge_scope(st1, st2))),
                    },
                    Ok(_) => Err(EvalError::IterableNotList),
                },
                Option::None => match spec_loop_forever(f, st, then) {
                    Err(e1) => Err(e1),
                    Ok((sig, st2)) => Ok((loop_result_signal(sig), merge_scope(st, st2))),
                },
            },
            StatementV::Return { value } => match value {
                Option::None => Ok((SignalV::Normal, st)),
                Option::Some(e) => match spec_eval(f, st, e) {
                    Err(e1) => Err(e1),
                    Ok((Option::None, st1)) => Ok((SignalV::Normal, st1)),
                    Ok((Option::Some(v), st1)) => Ok((SignalV::Returned(v), st1)),
                },
            },
            StatementV::Break => Ok((SignalV::Broken, st)),
            StatementV::Expression { expression } => match spec_eval(f, st, expression) {
                Err(e1) => Err(e1),
                Ok((_, st1)) => Ok((SignalV::Normal, st1)),
            },
        }
    }
}

/// Runs the loop body once per element of `items`, rebinding `name` each
/// time, in the child state `st`: stops early on a break or return
/// signal, which the enclosing loop statement then interprets.
pub open spec fn spec_loop_items(
    fuel: nat,
    st: StateV,
    name: Seq<char>,
    items: Seq<ExpressionV>,
    body: Seq<StatementV>,
) -> Result<(SignalV, StateV), EvalError>
    decreases fuel, 4int,
{
    if items.len() == 0 {
        Ok((SignalV::Normal, st))
    } else if fuel == 0 {
        Err(EvalError::OutOfFuel)
    } else {
        let f = (fuel - 1) as nat;
        let st1 = StateV { vars: st.vars.insert(name, items[0]), ..st };
        match spec_run_block(f, st1, body) {
            Err(e1) => Err(e1),
            Ok((SignalV::Normal, st2)) => spec_loop_items(f, st2, name, items.drop_first(), body),
            Ok((sig, st2)) => Ok((sig, st2)),
        }
    }
}

/// Runs the loop body over and over in the child state `st` until it
/// produces a signal; only the fuel bound ends a body that never does.
pub open spec fn spec_loop_forever(fuel: nat, st: StateV, body: Seq<StatementV>) -> Result<
    (SignalV, StateV),
    EvalError,
>
    decreases fuel, 4int,
{
    if fuel == 0 {
        Err(EvalError::OutOfFuel)
    } else {
        let f = (fuel - 1) as nat;
        match spec_run_block(f, st, body) {
            Err(e1) => Err(e1),
            Ok((SignalV::Normal, st2)) => spec_loop_forever(f, st2, body),
            Ok((sig, st2)) => Ok((sig, st2)),
        }
    }
}

/// Runs the statements of `b` in order: stops at the first error or the
/// first break or return signal, which it hands to its caller.
pub open spec fn spec_run_block(fuel: nat, st: StateV, b: Seq<StatementV>) -> Result<
    (SignalV, StateV),
    EvalError,
>
    decreases fuel, 4int,
{
    if b.len() == 0 {
        Ok((SignalV::Normal, st))
    } else if fuel == 0 {
        Err(EvalError::OutOfFuel)
    } else {
        let f = (fuel - 1) as nat;
        match spec_run_stmt(f, st, b[0]) {
            Err(e1) => Err(e1),
            Ok((SignalV::Normal, st1)) => spec_run_block(f, st1, b.drop_first()),
            Ok((sig, st1)) => Ok((sig, st1)),
        }
    }
}

/// The state a run starts from: the print and command builtins
/// registered, no functions, no variables, an empty trace.
pub open spec fn initial_state() -> StateV {
    StateV {
        globals: Map::empty().insert("print"@, Std::Print).insert("cmd"@, Std::Cmd),
        funcs: Map::empty(),
        vars: Map::empty(),
        out: Seq::empty(),
    }
}

/// A whole run: the program's statements executed in order from the
/// initial state. A top-level return ends the run with its value; a
/// break that reaches the top is an error; otherwise the run yields no
/// value. Either way the effect trace is what the host performs.
pub open spec fn spec_interpret(fuel: nat, program: Seq<StatementV>) -> Result<
    (Option<ExpressionV>, Seq<EffectV>),
    EvalError,
> {
    match spec_run_block(fuel, initial_state(), program) {
        Err(e1) => Err(e1),
        Ok((SignalV::Normal, st)) => Ok((Option::None, st.out)),
        Ok((SignalV::Returned(v), st)) => Ok((Option::Some(v), st.out)),
        Ok((SignalV::Broken, _)) => Err(EvalError::BreakOutsideLoop),
    }
}

} // verus!
