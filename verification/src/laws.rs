//! General properties of the semantics, each proved once and for all
//! inputs: literal evaluation is the identity, arity mismatches fail in
//! both directions, a loop consumes its break signal, and loop scoping
//! neither leaks new names nor hides mutations of old ones.

use vstd::prelude::*;

use crate::ast::{ExpressionV, LoopBindingV, StatementV};
use crate::env::ProgramV;
use crate::errors::EvalError;
use crate::semantics::{loop_result_signal, merge_scope, spec_call, spec_call_by_name, spec_eval,
    spec_eval_arguments, spec_eval_elements, spec_run_stmt, SignalV, StateV};

verus! {

/// True when `e` is a number, string or boolean literal.
pub open spec fn is_literal(e: ExpressionV) -> bool {
    match e {
        ExpressionV::Number(_) => true,
        ExpressionV::String(_) => true,
        ExpressionV::Boolean(_) => true,
        _ => false,
    }
}

/// Evaluating a literal yields the literal itself and leaves the whole
/// state — bindings and effect trace — untouched; so evaluating it any
/// number of times yields an equal value every time.
pub proof fn literal_evaluation_identity(fuel: nat, st: StateV, e: ExpressionV)
    requires
        fuel > 0,
        is_literal(e),
    ensures
        spec_eval(fuel, st, e) == Ok::<(Option<ExpressionV>, StateV), EvalError>((Some(e), st)),
{
}

/// Calling a function with more or with fewer arguments than it has
/// parameters is the arity error, in both directions.
pub proof fn call_arity_law(fuel: nat, st: StateV, prog: ProgramV, args: Seq<ExpressionV>)
    requires
        fuel > 0,
        args.len() != prog.params.len(),
    ensures
        spec_call(fuel, st, prog, args) == Err::<(Option<ExpressionV>, StateV), EvalError>(
            EvalError::ArityMismatch,
        ),
{
}

/// A loop statement never hands a break signal to its surroundings: the
/// break that ends it is consumed by the loop itself.
pub proof fn loop_consumes_break(
    fuel: nat,
    st: StateV,
    binding: Option<LoopBindingV>,
    then: Seq<StatementV>,
)
    ensures
        spec_run_stmt(fuel, st, StatementV::Loop { binding, then }) matches Ok((sig, _))
            ==> !(sig is Broken),
{
    let r = spec_run_stmt(fuel, st, StatementV::Loop { binding, then });
    if r is Ok {
        assert(forall|s: SignalV| !(#[trigger] loop_result_signal(s) is Broken));
    }
}

/// After a loop scope closes, a name that existed both before the scope
/// and at its end holds the value the loop body left in it: mutations
/// of variables declared before the loop stay visible after it.
pub proof fn loop_scope_mutation_visible(parent: StateV, child: StateV, k: Seq<char>)
    requires
        parent.vars.dom().contains(k),
        child.vars.dom().contains(k),
    ensures
        merge_scope(parent, child).vars.dom().contains(k),
        merge_scope(parent, child).vars[k] == child.vars[k],
{
}

/// Evaluating an expression declares no variable and forgets none: the
/// set of bound names afterwards is the set before.
pub proof fn eval_preserves_names(fuel: nat, st: StateV, e: ExpressionV)
    ensures
        spec_eval(fuel, st, e) matches Ok((_, st1)) ==> st1.vars.dom() =~= st.vars.dom(),
    decreases fuel, 4int,
{
    if fuel > 0 {
        let f = (fuel - 1) as nat;
        match e {
            ExpressionV::Infix(l, op, r) => {
                eval_preserves_names(f, st, *l);
                if let Ok((Some(_), st1)) = spec_eval(f, st, *l) {
                    eval_preserves_names(f, st1, *r);
                }
            },
            ExpressionV::Prefix(op, x) => {
                eval_preserves_names(f, st, *x);
            },
            ExpressionV::List(items) => {
                elements_preserve_names(f, st, items);
            },
            ExpressionV::Assign(target, value) => {
                eval_preserves_names(f, st, *value);
            },
            ExpressionV::Call(callee, args) => {
                if let ExpressionV::Identifier(n) = *callee {
                    call_by_name_preserves_names(f, st, n, args);
                }
            },
            _ => {},
        }
    }
}

/// Evaluating the elements of a list, left to right, declares no
/// variable and forgets none.
pub proof fn elements_preserve_names(fuel: nat, st: StateV, items: Seq<ExpressionV>)
    ensures
        spec_eval_elements(fuel, st, items) matches Ok((_, st1)) ==> st1.vars.dom()
            =~= st.vars.dom(),
    decreases fuel, 0int,
{
    if fuel > 0 && items.len() > 0 {
        let f = (fuel - 1) as nat;
        eval_preserves_names(f, st, items[0]);
        if let Ok((Some(_), st1)) = spec_eval(f, st, items[0]) {
            elements_preserve_names(f, st1, items.drop_first());
        }
    }
}

/// Resolving and performing a call declares no variable in the caller's
/// scope and forgets none: what the body binds stays in its own frame.
pub proof fn call_by_name_preserves_names(
    fuel: nat,
    st: StateV,
    n: Seq<char>,
    args: Seq<ExpressionV>,
)
    ensures
        spec_call_by_name(fuel, st, n, args) matches Ok((_, st1)) ==> st1.vars.dom()
            =~= st.vars.dom(),
    decreases fuel, 3int,
{
    elements_preserve_names(fuel, st, args);
    if let Ok((vals, st1)) = spec_eval_arguments(fuel, st, args) {
        if st.globals.contains_key(n) {
        } else if st.funcs.contains_key(n) {
            if fuel > 0 {
                assert(spec_call(fuel, st1, st.funcs[n], vals) matches Ok((_, st2)) ==> st2.vars
                    == st1.vars);
            }
        }
    }
}

/// A loop statement leaves no new variable behind: every name bound
/// after the loop was already bound before it. Names first declared in
/// the loop's body — its own loop variable included — are undefined once
/// the loop ends.
pub proof fn loop_scope_no_leak(
    fuel: nat,
    st: StateV,
    binding: Option<LoopBindingV>,
    then: Seq<StatementV>,
)
    ensures
        spec_run_stmt(fuel, st, StatementV::Loop { binding, then }) matches Ok((_, post))
            ==> post.vars.dom().subset_of(st.vars.dom()),
{
    if fuel > 0 {
        let f = (fuel - 1) as nat;
        match binding {
            Some(lb) => {
                eval_preserves_names(f, st, lb.iterable);
            },
            None => {},
        }
    }
}

} // verus!
