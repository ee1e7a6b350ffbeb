//! The tree-walking interpreter: executable, and proved equal to the
//! definitional semantics in `semantics`, case by case.
//!
//! Every method takes a fuel bound that mirrors the one of the spec
//! functions; each contract says that the method returns, and leaves the
//! state, exactly as the corresponding spec function computes for its
//! fuel. Scopes are opened by remembering the two stores' lengths and
//! closed by truncating back to them; call frames swap a fresh variable
//! store in and out.

use vstd::prelude::*;
use vstd::string::StringExecFns;

use crate::ast::{block_view, exprs_view, lemma_block_view, lemma_exprs_view, Block, Expression,
    ExpressionV, Identifier, Op, Statement, StatementV};
use crate::env::{FuncStore, GlobalStore, Program, VarStore};
use crate::errors::EvalError;
use crate::semantics::{initial_state, loop_result_signal, merge_scope, spec_call, spec_eval,
    spec_eval_elements, spec_infix, spec_interpret, spec_loop_forever, spec_loop_items,
    spec_prefix, spec_run_block, spec_run_stmt, SignalV, StateV};
use crate::stdlib::{Effect, EffectV, Std};

verus! {

/// What executing a statement hands to the enclosing block: nothing, a
/// propagating return value, or the break sentinel.
#[derive(Debug, PartialEq)]
pub enum Signal {
    Normal,
    Returned(Expression),
    Broken,
}

impl View for Signal {
    type V = SignalV;

    open spec fn view(&self) -> SignalV {
        match self {
            Signal::Normal => SignalV::Normal,
            Signal::Returned(v) => SignalV::Returned(v@),
            Signal::Broken => SignalV::Broken,
        }
    }
}

/// The model of an optional value.
pub open spec fn opt_view(o: Option<Expression>) -> Option<ExpressionV> {
    match o {
        Option::None => Option::None,
        Option::Some(e) => Option::Some(e@),
    }
}

/// The models of the effects in `s`, in order.
pub open spec fn effects_view(s: Seq<Effect>) -> Seq<EffectV> {
    Seq::new(s.len(), |i: int| s[i]@)
}

/// The interpreter and its working state: the builtin registry, the
/// declared functions, the variables of the current scope, and the trace
/// of effects the program has asked for so far.
#[derive(Debug)]
pub struct Interpreter {
    pub globals: GlobalStore,
    pub functions: FuncStore,
    pub variables: VarStore,
    pub output: Vec<Effect>,
}

impl View for Interpreter {
    type V = StateV;

    open spec fn view(&self) -> StateV {
        StateV {
            globals: self.globals@,
            funcs: self.functions@,
            vars: self.variables@,
            out: effects_view(self.output@),
        }
    }
}

/// What the evaluator returned and left behind matches what the spec
/// function computed: same error, or same value and same state.
pub open spec fn eval_matches(
    s: Result<(Option<ExpressionV>, StateV), EvalError>,
    r: Result<Option<Expression>, EvalError>,
    post: StateV,
) -> bool {
    match r {
        Ok(v) => s == Ok::<(Option<ExpressionV>, StateV), EvalError>((opt_view(v), post)),
        Err(e) => s == Err::<(Option<ExpressionV>, StateV), EvalError>(e),
    }
}

/// What a statement or block runner returned and left behind matches
/// what the spec function computed.
pub open spec fn run_matches(
    s: Result<(SignalV, StateV), EvalError>,
    r: Result<Signal, EvalError>,
    post: StateV,
) -> bool {
    match r {
        Ok(sig) => s == Ok::<(SignalV, StateV), EvalError>((sig@, post)),
        Err(e) => s == Err::<(SignalV, StateV), EvalError>(e),
    }
}

/// What the element evaluator returned and left behind matches what the
/// spec function computed.
pub open spec fn elements_match(
    s: Result<(Option<Seq<ExpressionV>>, StateV), EvalError>,
    r: Result<Option<Vec<Expression>>, EvalError>,
    post: StateV,
) -> bool {
    match r {
        Ok(Option::Some(vals)) => s == Ok::<(Option<Seq<ExpressionV>>, StateV), EvalError>(
            (Option::Some(exprs_view(vals@)), post),
        ),
        Ok(Option::None) => s == Ok::<(Option<Seq<ExpressionV>>, StateV), EvalError>(
            (Option::None, post),
        ),
        Err(e) => s == Err::<(Option<Seq<ExpressionV>>, StateV), EvalError>(e),
    }
}

/// The frame discipline that every evaluation step obeys, on success
/// and on error alike: the builtin registry is untouched; what a
/// caller's scope had declared — the leading variable names and the
/// leading function entries — is still there, so an enclosing scope can
/// be closed by truncating; and the effect trace only grows.
pub open spec fn frames_preserved(pre: Interpreter, post: Interpreter) -> bool {
    &&& post.globals == pre.globals
    &&& pre.functions.entry_seq().is_prefix_of(post.functions.entry_seq())
    &&& pre.variables.key_seq().is_prefix_of(post.variables.key_seq())
    &&& effects_view(pre.output@).is_prefix_of(effects_view(post.output@))
}

/// Prefixes chain: a prefix of a prefix is a prefix.
proof fn lemma_prefix_trans<T>(a: Seq<T>, b: Seq<T>, c: Seq<T>)
    requires
        a.is_prefix_of(b),
        b.is_prefix_of(c),
    ensures
        a.is_prefix_of(c),
{
    assert(a =~= c.subrange(0, a.len() as int));
}

/// The frame discipline chains across successive steps.
proof fn lemma_frames_trans(a: Interpreter, b: Interpreter, c: Interpreter)
    requires
        frames_preserved(a, b),
        frames_preserved(b, c),
    ensures
        frames_preserved(a, c),
{
    lemma_prefix_trans(a.functions.entry_seq(), b.functions.entry_seq(), c.functions.entry_seq());
    lemma_prefix_trans(a.variables.key_seq(), b.variables.key_seq(), c.variables.key_seq());
    lemma_prefix_trans(effects_view(a.output@), effects_view(b.output@), effects_view(c.output@));
}

/// Applies the infix operator `op` to the evaluated operands `l` and
/// `r`, exactly as the operator table defines.
pub fn apply_infix(l: Expression, op: Op, r: Expression) -> (res: Result<Expression, EvalError>)
    ensures
        match res {
            Ok(v) => spec_infix(l@, op, r@) == Ok::<ExpressionV, EvalError>(v@),
            Err(e) => spec_infix(l@, op, r@) == Err::<ExpressionV, EvalError>(e),
        },
{
    match (l, op, r) {
        (Expression::Number(a), Op::Add, Expression::Number(b)) => match a.checked_add(b) {
            Option::Some(v) => Ok(Expression::Number(v)),
            Option::None => Err(EvalError::Overflow),
        },
        (Expression::Number(a), Op::Subtract, Expression::Number(b)) => match a.checked_sub(b) {
            Option::Some(v) => Ok(Expression::Number(v)),
            Option::None => Err(EvalError::Overflow),
        },
        (Expression::Number(a), Op::Multiply, Expression::Number(b)) => match a.checked_mul(b) {
            Option::Some(v) => Ok(Expression::Number(v)),
            Option::None => Err(EvalError::Overflow),
        },
        (Expression::Number(a), Op::Divide, Expression::Number(b)) => if b == 0 {
            Err(EvalError::DivisionByZero)
        } else {
            match a.checked_div(b) {
                Option::Some(v) => Ok(Expression::Number(v)),
                Option::None => Err(EvalError::Overflow),
            }
        },
        (Expression::Number(a), Op::Modulo, Expression::Number(b)) => if b == 0 {
            Err(EvalError::DivisionByZero)
        } else {
            match a.checked_rem(b) {
                Option::Some(v) => Ok(Expression::Number(v)),
                Option::None => Err(EvalError::Overflow),
            }
        },
        (Expression::Number(a), Op::Equals, Expression::Number(b)) => Ok(
            Expression::Boolean(a == b),
        ),
        (Expression::Number(a), Op::NotEquals, Expression::Number(b)) => Ok(
            Expression::Boolean(a != b),
        ),
        (Expression::Number(a), Op::LessThan, Expression::Number(b)) => Ok(
            Expression::Boolean(a < b),
        ),
        (Expression::Number(a), Op::GreaterThan, Expression::Number(b)) => Ok(
            Expression::Boolean(a > b),
        ),
        (Expression::Number(a), Op::LessThanOrEquals, Expression::Number(b)) => Ok(
            Expression::Boolean(a <= b),
        ),
        (Expression::Number(a), Op::GreaterThanOrEquals, Expression::Number(b)) => Ok(
            Expression::Boolean(a >= b),
        ),
        (Expression::Boolean(a), Op::And, Expression::Boolean(b)) => Ok(
            Expression::Boolean(a && b),
        ),
        (Expression::Boolean(a), Op::Or, Expression::Boolean(b)) => Ok(Expression::Boolean(a || b)),
        (Expression::String(a), Op::Equals, Expression::String(b)) => Ok(
            Expression::Boolean(a == b),
        ),
        _ => Err(EvalError::UnsupportedOperation),
    }
}

/// Applies the prefix operator `op` to the evaluated operand `v`.
pub fn apply_prefix(op: Op, v: Expression) -> (res: Result<Expression, EvalError>)
    ensures
        match res {
            Ok(w) => spec_prefix(op, v@) == Ok::<ExpressionV, EvalError>(w@),
            Err(e) => spec_prefix(op, v@) == Err::<ExpressionV, EvalError>(e),
        },
{
    match (op, v) {
        (Op::Not, Expression::Boolean(b)) => Ok(Expression::Boolean(!b)),
        (Op::Subtract, Expression::Number(n)) => match 0i64.checked_sub(n) {
            Option::Some(m) => Ok(Expression::Number(m)),
            Option::None => Err(EvalError::Overflow),
        },
        _ => Err(EvalError::UnsupportedOperation),
    }
}

/// Registers the builtin operations that every run starts with.
pub fn register_globals(interpreter: &mut Interpreter)
    ensures
        final(interpreter)@ == (StateV {
            globals: old(interpreter)@.globals.insert("print"@, Std::Print).insert(
                "cmd"@,
                Std::Cmd,
            ),
            ..old(interpreter)@
        }),
        final(interpreter).variables == old(interpreter).variables,
        final(interpreter).functions == old(interpreter).functions,
{
    interpreter.register_global("print", Std::Print);
    interpreter.register_global("cmd", Std::Cmd);
}

impl Interpreter {
    /// An interpreter over the given registries and variable scope, with
    /// an empty effect trace.
    pub fn new(globals: GlobalStore, functions: FuncStore, variables: VarStore) -> (r: Self)
        ensures
            r.globals == globals,
            r.functions == functions,
            r.variables == variables,
            r.output@ == Seq::<Effect>::empty(),
    {
        Interpreter { globals, functions, variables, output: Vec::new() }
    }

    /// Registers the builtin `std` under `name`.
    pub fn register_global(&mut self, name: &str, std: Std)
        ensures
            final(self)@ == (StateV {
                globals: old(self)@.globals.insert(name@, std),
                ..old(self)@
            }),
            final(self).variables == old(self).variables,
            final(self).functions == old(self).functions,
    {
        self.globals.set(String::from_str(name), std);
    }

    /// Evaluates the expression `e`, as `spec_eval` defines.
    #[verifier::rlimit(100)]
    #[verifier::spinoff_prover]
    pub fn evaluate(&mut self, fuel: u64, e: &Expression) -> (r: Result<
        Option<Expression>,
        EvalError,
    >)
        requires
            old(self).variables.wf(),
        ensures
            final(self).variables.wf(),
            frames_preserved(*old(self), *final(self)),
            eval_matches(spec_eval(fuel as nat, old(self)@, e@), r, final(self)@),
        decreases fuel, 4int,
    {
        if fuel == 0 {
            return Err(EvalError::OutOfFuel);
        }
        let f = fuel - 1;
        match e {
            Expression::Number(n) => Ok(Some(Expression::Number(*n))),
            Expression::String(s) => Ok(Some(Expression::String(s.clone()))),
            Expression::Boolean(b) => Ok(Some(Expression::Boolean(*b))),
            Expression::Identifier(n) => match self.variables.get(n) {
                Some(v) => {
                    let value = v.duplicate();
                    Ok(Some(value))
                },
                None => Err(EvalError::UndefinedVariable),
            },
            Expression::Infix(l, op, r2) => {
                let ghost pre = *self;
                let lv = match self.evaluate(f, &**l) {
                    Err(err) => return Err(err),
                    Ok(None) => return Ok(None),
                    Ok(Some(v)) => v,
                };
                let ghost mid = *self;
                let rv = match self.evaluate(f, &**r2) {
                    Err(err) => {
                        proof {
                            lemma_frames_trans(pre, mid, *self);
                        }
                        return Err(err);
                    },
                    Ok(None) => {
                        proof {
                            lemma_frames_trans(pre, mid, *self);
                        }
                        return Ok(None);
                    },
                    Ok(Some(v)) => v,
                };
                proof {
                    lemma_frames_trans(pre, mid, *self);
                }
                match apply_infix(lv, *op, rv) {
                    Ok(v) => Ok(Some(v)),
                    Err(err) => Err(err),
                }
            },
            Expression::Prefix(op, x) => {
                let v = match self.evaluate(f, &**x) {
                    Err(err) => return Err(err),
                    Ok(None) => return Ok(None),
                    Ok(Some(v)) => v,
                };
                match apply_prefix(*op, v) {
                    Ok(w) => Ok(Some(w)),
                    Err(err) => Err(err),
                }
            },
            Expression::List(items) => match self.evaluate_elements(f, items) {
                Err(err) => Err(err),
                Ok(None) => Err(EvalError::ElementWithoutValue),
                Ok(Some(vals)) => Ok(Some(Expression::List(vals))),
            },
            Expression::Assign(target, value) => {
                let v = match self.evaluate(f, &**value) {
                    Err(err) => return Err(err),
                    Ok(None) => return Ok(None),
                    Ok(Some(v)) => v,
                };
                let ghost mid = *self;
                match &**target {
                    Expression::Identifier(n) => {
                        proof {
                            assert((**target)@ == ExpressionV::Identifier(n@));
                        }
                        if self.variables.contains(n) {
                            self.variables.set(n.clone(), v);
                            proof {
                                lemma_frames_trans(*old(self), mid, *self);
                            }
                            Ok(None)
                        } else {
                            Err(EvalError::AssignToUndefined)
                        }
                    },
                    _ => Err(EvalError::AssignTargetNotIdentifier),
                }
            },
            Expression::Call(callee, arguments) => match &**callee {
                Expression::Identifier(n) => {
                    proof {
                        assert((**callee)@ == ExpressionV::Identifier(n@));
                    }
                    self.call_by_name(f, n, arguments)
                },
                _ => Err(EvalError::CalleeNotIdentifier),
            },
            Expression::Break => Err(EvalError::BreakExpression),
        }
    }

    /// Resolves and performs a call to the name `n` on the unevaluated
    /// argument expressions, as `spec_call_by_name` defines.
    fn call_by_name(&mut self, fuel: u64, n: &Identifier, arguments: &Vec<Expression>) -> (r:
        Result<Option<Expression>, EvalError>)
        requires
            old(self).variables.wf(),
        ensures
            final(self).variables.wf(),
            frames_preserved(*old(self), *final(self)),
            eval_matches(
                crate::semantics::spec_call_by_name(
                    fuel as nat,
                    old(self)@,
                    n@,
                    exprs_view(arguments@),
                ),
                r,
                final(self)@,
            ),
        decreases fuel, 3int,
    {
        let ghost st0 = old(self)@;
        let ghost argsv = exprs_view(arguments@);
        if let Some(builtin) = self.globals.get(n) {
            let ghost pre = *self;
            let vals = match self.evaluate_elements(fuel, arguments) {
                Err(err) => {
                    proof {
                        assert(crate::semantics::spec_eval_arguments(fuel as nat, st0, argsv)
                            == Err::<(Seq<ExpressionV>, StateV), EvalError>(err));
                    }
                    return Err(err);
                },
                Ok(None) => {
                    proof {
                        assert(crate::semantics::spec_eval_arguments(fuel as nat, st0, argsv)
                            == Err::<(Seq<ExpressionV>, StateV), EvalError>(
                            EvalError::ArgumentWithoutValue,
                        ));
                    }
                    return Err(EvalError::ArgumentWithoutValue);
                },
                Ok(Some(vals)) => vals,
            };
            proof {
                assert(crate::semantics::spec_eval_arguments(fuel as nat, st0, argsv) == Ok::<
                    (Seq<ExpressionV>, StateV),
                    EvalError,
                >((exprs_view(vals@), self@)));
            }
            let eff = match builtin.run(vals) {
                Ok(eff) => eff,
                Err(err) => return Err(err),
            };
            let ghost mid = *self;
            self.output.push(eff);
            proof {
                assert(effects_view(self.output@) =~= effects_view(mid.output@).push(eff@));
                assert(frames_preserved(mid, *self));
                lemma_frames_trans(pre, mid, *self);
            }
            Ok(None)
        } else {
            let program = match self.functions.get(n) {
                Some(p) => p.duplicate(),
                None => return Err(EvalError::UndefinedFunction),
            };
            let ghost pre = *self;
            let vals = match self.evaluate_elements(fuel, arguments) {
                Err(err) => {
                    proof {
                        assert(crate::semantics::spec_eval_arguments(fuel as nat, st0, argsv)
                            == Err::<(Seq<ExpressionV>, StateV), EvalError>(err));
                    }
                    return Err(err);
                },
                Ok(None) => {
                    proof {
                        assert(crate::semantics::spec_eval_arguments(fuel as nat, st0, argsv)
                            == Err::<(Seq<ExpressionV>, StateV), EvalError>(
                            EvalError::ArgumentWithoutValue,
                        ));
                    }
                    return Err(EvalError::ArgumentWithoutValue);
                },
                Ok(Some(vals)) => vals,
            };
            proof {
                assert(crate::semantics::spec_eval_arguments(fuel as nat, st0, argsv) == Ok::<
                    (Seq<ExpressionV>, StateV),
                    EvalError,
                >((exprs_view(vals@), self@)));
            }
            let ghost mid = *self;
            let r = self.call(fuel, program, vals);
            proof {
                lemma_frames_trans(pre, mid, *self);
            }
            r
        }
    }

    /// Evaluates the expressions of a list literal or an argument list,
    /// left to right, as `spec_eval_elements` defines.
    fn evaluate_elements(&mut self, fuel: u64, items: &Vec<Expression>) -> (r: Result<
        Option<Vec<Expression>>,
        EvalError,
    >)
        requires
            old(self).variables.wf(),
        ensures
            final(self).variables.wf(),
            frames_preserved(*old(self), *final(self)),
            elements_match(
                spec_eval_elements(fuel as nat, old(self)@, exprs_view(items@)),
                r,
                final(self)@,
            ),
        decreases fuel, 0int,
    {
        let ghost pre = *old(self);
        let ghost st0 = old(self)@;
        let ghost itemsv = exprs_view(items@);
        proof {
            lemma_exprs_view(items@);
            assert(itemsv.skip(0) =~= itemsv);
        }
        let mut vals: Vec<Expression> = Vec::new();
        let mut lf: u64 = fuel;
        let mut i: usize = 0;
        while i < items.len()
            invariant
                self.variables.wf(),
                frames_preserved(pre, *self),
                pre == *old(self),
                st0 == old(self)@,
                i <= items@.len(),
                lf <= fuel,
                itemsv == exprs_view(items@),
                itemsv.len() == items@.len(),
                forall|j: int| 0 <= j < items@.len() ==> #[trigger] itemsv[j] == items@[j]@,
                spec_eval_elements(fuel as nat, st0, itemsv) == (match spec_eval_elements(
                    lf as nat,
                    self@,
                    itemsv.skip(i as int),
                ) {
                    Ok((Option::Some(rest), s)) => Ok::<
                        (Option<Seq<ExpressionV>>, StateV),
                        EvalError,
                    >((Option::Some(exprs_view(vals@) + rest), s)),
                    Ok((Option::None, s)) => Ok((Option::None, s)),
                    Err(er) => Err(er),
                }),
            decreases items@.len() - i,
        {
            if lf == 0 {
                return Err(EvalError::OutOfFuel);
            }
            lf = lf - 1;
            let ghost mid = *self;
            let ghost old_vals = vals@;
            let v = match self.evaluate(lf, &items[i]) {
                Err(err) => {
                    proof {
                        lemma_frames_trans(pre, mid, *self);
                    }
                    return Err(err);
                },
                Ok(None) => {
                    proof {
                        lemma_frames_trans(pre, mid, *self);
                    }
                    return Ok(None);
                },
                Ok(Some(v)) => v,
            };
            let ghost vv = v@;
            vals.push(v);
            proof {
                lemma_frames_trans(pre, mid, *self);
                assert(itemsv.skip(i as int)[0] == itemsv[i as int]);
                assert(itemsv.skip(i as int).drop_first() =~= itemsv.skip(i as int + 1));
                lemma_exprs_view(old_vals);
                lemma_exprs_view(vals@);
                assert(exprs_view(vals@) =~= exprs_view(old_vals).push(vv));
                assert forall|rest: Seq<ExpressionV>|
                    exprs_view(old_vals) + (seq![vv] + rest) =~= exprs_view(vals@) + rest by {}
            }
            i = i + 1;
        }
        proof {
            assert(itemsv.skip(i as int) =~= Seq::<ExpressionV>::empty());
            assert(exprs_view(vals@) + Seq::<ExpressionV>::empty() =~= exprs_view(vals@));
        }
        Ok(Some(vals))
    }

    /// Calls the function value `input` on the evaluated arguments
    /// `params`, as `spec_call` defines: a fresh variable frame, arity
    /// checked, the body's signal unwrapped into the call's result.
    pub fn call(&mut self, fuel: u64, input: Program, params: Vec<Expression>) -> (r: Result<
        Option<Expression>,
        EvalError,
    >)
        requires
            old(self).variables.wf(),
        ensures
            final(self).variables.wf(),
            frames_preserved(*old(self), *final(self)),
            eval_matches(
                spec_call(fuel as nat, old(self)@, input@, exprs_view(params@)),
                r,
                final(self)@,
            ),
        decreases fuel, 2int,
    {
        if fuel == 0 {
            return Err(EvalError::OutOfFuel);
        }
        let ghost inputv = input@;
        let (fparams, body) = match input {
            Program::Fn { params, body } => (params, body),
        };
        proof {
            lemma_exprs_view(params@);
        }
        if params.len() != fparams.len() {
            return Err(EvalError::ArityMismatch);
        }
        let mut frame = VarStore::new();
        let mut i: usize = 0;
        proof {
            assert(crate::ast::params_view(fparams@).take(0) =~= Seq::<Seq<char>>::empty());
            assert(exprs_view(params@).take(0) =~= Seq::<ExpressionV>::empty());
        }
        while i < fparams.len()
            invariant
                frame.wf(),
                i <= fparams@.len(),
                fparams@.len() == params@.len(),
                frame@ == crate::semantics::bind_params(
                    crate::ast::params_view(fparams@).take(i as int),
                    exprs_view(params@).take(i as int),
                ),
            decreases fparams@.len() - i,
        {
            let name = fparams[i].name.clone();
            let value = params[i].duplicate();
            frame.set(name, value);
            proof {
                lemma_exprs_view(params@);
                let pv = crate::ast::params_view(fparams@);
                let av = exprs_view(params@);
                assert(pv.take(i as int + 1).drop_last() =~= pv.take(i as int));
                assert(av.take(i as int + 1).drop_last() =~= av.take(i as int));
                assert(pv.take(i as int + 1).last() == pv[i as int]);
                assert(av.take(i as int + 1).last() == av[i as int]);
            }
            i = i + 1;
        }
        proof {
            assert(crate::ast::params_view(fparams@).take(i as int) =~= crate::ast::params_view(
                fparams@,
            ));
            assert(exprs_view(params@).take(i as int) =~= exprs_view(params@));
        }
        core::mem::swap(&mut self.variables, &mut frame);
        let fdepth = self.functions.depth();
        let ghost entered = *self;
        let result = self.run(fuel - 1, &body);
        let ghost ran = *self;
        proof {
            assert(entered.functions.entry_seq().is_prefix_of(ran.functions.entry_seq()));
            assert(fdepth as int <= ran.functions.entry_seq().len());
        }
        self.functions.truncate(fdepth);
        core::mem::swap(&mut self.variables, &mut frame);
        proof {
            assert(self.functions.entry_seq() =~= entered.functions.entry_seq());
            assert(self.variables == old(self).variables);
            assert(self@.funcs == old(self)@.funcs);
            assert(self@.vars == old(self)@.vars);
            assert(self@.globals == old(self)@.globals);
        }
        match result {
            Err(err) => Err(err),
            Ok(Signal::Normal) => Ok(None),
            Ok(Signal::Returned(v)) => Ok(Some(v)),
            Ok(Signal::Broken) => Err(EvalError::BreakOutsideLoop),
        }
    }

    /// Runs the statements of `ast` in order, as `spec_run_block`
    /// defines: the first signal or error stops the block.
    pub fn run(&mut self, fuel: u64, ast: &Block) -> (r: Result<Signal, EvalError>)
        requires
            old(self).variables.wf(),
        ensures
            final(self).variables.wf(),
            frames_preserved(*old(self), *final(self)),
            run_matches(
                spec_run_block(fuel as nat, old(self)@, block_view(ast@)),
                r,
                final(self)@,
            ),
        decreases fuel, 4int,
    {
        let ghost pre = *old(self);
        let ghost st0 = old(self)@;
        let ghost bv = block_view(ast@);
        proof {
            lemma_block_view(ast@);
            assert(bv.skip(0) =~= bv);
        }
        let mut lf: u64 = fuel;
        let mut i: usize = 0;
        while i < ast.len()
            invariant
                self.variables.wf(),
                frames_preserved(pre, *self),
                pre == *old(self),
                st0 == old(self)@,
                i <= ast@.len(),
                lf <= fuel,
                bv == block_view(ast@),
                bv.len() == ast@.len(),
                forall|j: int| 0 <= j < ast@.len() ==> #[trigger] bv[j] == ast@[j]@,
                spec_run_block(fuel as nat, st0, bv) == spec_run_block(
                    lf as nat,
                    self@,
                    bv.skip(i as int),
                ),
            decreases ast@.len() - i,
        {
            if lf == 0 {
                return Err(EvalError::OutOfFuel);
            }
            lf = lf - 1;
            let ghost mid = *self;
            proof {
                assert(bv.skip(i as int)[0] == bv[i as int]);
                assert(bv.skip(i as int).drop_first() =~= bv.skip(i as int + 1));
            }
            match self.run_statement(lf, &ast[i]) {
                Err(err) => {
                    proof {
                        lemma_frames_trans(pre, mid, *self);
                    }
                    return Err(err);
                },
                Ok(Signal::Normal) => {
                    proof {
                        lemma_frames_trans(pre, mid, *self);
                    }
                },
                Ok(sig) => {
                    proof {
                        lemma_frames_trans(pre, mid, *self);
                    }
                    return Ok(sig);
                },
            }
            i = i + 1;
        }
        proof {
            assert(bv.skip(i as int) =~= Seq::<StatementV>::empty());
        }
        Ok(Signal::Normal)
    }

    /// Executes one statement, as `spec_run_stmt` defines.
    pub fn run_statement(&mut self, fuel: u64, input: &Statement) -> (r: Result<Signal, EvalError>)
        requires
            old(self).variables.wf(),
        ensures
            final(self).variables.wf(),
            frames_preserved(*old(self), *final(self)),
            run_matches(spec_run_stmt(fuel as nat, old(self)@, input@), r, final(self)@),
        decreases fuel, 4int,
    {
        if fuel == 0 {
            return Err(EvalError::OutOfFuel);
        }
        let f = fuel - 1;
        match input {
            Statement::Let { name, initial } => {
                let init = match initial {
                    None => return Err(EvalError::LetWithoutValue),
                    Some(e) => e,
                };
                let v = match self.evaluate(f, init) {
                    Err(err) => return Err(err),
                    Ok(None) => return Err(EvalError::LetWithoutValue),
                    Ok(Some(v)) => v,
                };
                let ghost mid = *self;
                self.variables.set(name.clone(), v);
                proof {
                    lemma_frames_trans(*old(self), mid, *self);
                }
                Ok(Signal::Normal)
            },
            Statement::FunctionDeclaration { name, params, body } => {
                let program = Program::Fn {
                    params: crate::ast::duplicate_parameters(params),
                    body: crate::ast::duplicate_block(body),
                };
                self.functions.set(name.clone(), program);
                proof {
                    assert(old(self).functions.entry_seq().is_prefix_of(
                        self.functions.entry_seq(),
                    ));
                }
                Ok(Signal::Normal)
            },
            Statement::If { condition, then, otherwise } => {
                let ghost pre = *self;
                let c = match self.evaluate(f, condition) {
                    Err(err) => return Err(err),
                    Ok(None) => return Err(EvalError::ConditionWithoutValue),
                    Ok(Some(v)) => v,
                };
                let ghost mid = *self;
                match c {
                    Expression::Boolean(b) => {
                        let r = if b {
                            self.run(f, then)
                        } else {
                            match otherwise {
                                Some(other) => self.run(f, other),
                                None => Ok(Signal::Normal),
                            }
                        };
                        proof {
                            lemma_frames_trans(pre, mid, *self);
                        }
                        r
                    },
                    _ => Err(EvalError::ConditionNotBoolean),
                }
            },
            Statement::Loop { binding, then } => match binding {
                Some(lb) => {
                    let ghost pre = *self;
                    let itr = match self.evaluate(f, &lb.iterable) {
                        Err(err) => return Err(err),
                        Ok(None) => return Err(EvalError::IterableNotList),
                        Ok(Some(v)) => v,
                    };
                    match itr {
                        Expression::List(items) => {
                            let ghost st1 = self@;
                            let ghost mid = *self;
                            let vdepth = self.variables.depth();
                            let fdepth = self.functions.depth();
                            let r = self.run_loop_items(f, &lb.value, &items, then);
                            let ghost ran = *self;
                            proof {
                                lemma_frames_trans(pre, mid, ran);
                            }
                            let sig = match r {
                                Err(err) => return Err(err),
                                Ok(sig) => sig,
                            };
                            self.close_scope(vdepth, fdepth, Ghost(mid));
                            proof {
                                lemma_frames_trans(*old(self), pre, *self);
                            }
                            match sig {
                                Signal::Broken => Ok(Signal::Normal),
                                s => Ok(s),
                            }
                        },
                        _ => Err(EvalError::IterableNotList),
                    }
                },
                None => {
                    let ghost mid = *self;
                    let vdepth = self.variables.depth();
                    let fdepth = self.functions.depth();
                    let r = self.run_loop_forever(f, then);
                    let sig = match r {
                        Err(err) => return Err(err),
                        Ok(sig) => sig,
                    };
                    self.close_scope(vdepth, fdepth, Ghost(mid));
                    match sig {
                        Signal::Broken => Ok(Signal::Normal),
                        s => Ok(s),
                    }
                },
            },
            Statement::Return { value } => {
                let e = match value {
                    None => return Ok(Signal::Normal),
                    Some(e) => e,
                };
                match self.evaluate(f, e) {
                    Err(err) => Err(err),
                    Ok(None) => Ok(Signal::Normal),
                    Ok(Some(v)) => Ok(Signal::Returned(v)),
                }
            },
            Statement::Break => Ok(Signal::Broken),
            Statement::Expression { expression } => match self.evaluate(f, expression) {
                Err(err) => Err(err),
                Ok(_) => Ok(Signal::Normal),
            },
        }
    }

    /// Closes the scope that was opened when the variable store held
    /// `vdepth` names and the function store `fdepth` entries — `opened`
    /// is the interpreter as it stood then. Variables declared since
    /// disappear, updates to older ones stay; function declarations made
    /// since are forgotten.
    fn close_scope(&mut self, vdepth: usize, fdepth: usize, opened: Ghost<Interpreter>)
        requires
            old(self).variables.wf(),
            opened@.variables.wf(),
            vdepth as int == opened@.variables.key_seq().len(),
            fdepth as int == opened@.functions.entry_seq().len(),
            frames_preserved(opened@, *old(self)),
        ensures
            final(self).variables.wf(),
            final(self)@ == merge_scope(opened@@, old(self)@),
            final(self).variables.key_seq() == opened@.variables.key_seq(),
            final(self).functions.entry_seq() == opened@.functions.entry_seq(),
            final(self).globals == old(self).globals,
    {
        proof {
            assert(fdepth as int <= self.functions.entry_seq().len());
            assert(vdepth as int <= self.variables.key_seq().len());
        }
        self.functions.truncate(fdepth);
        self.variables.truncate(vdepth);
        proof {
            assert(self.functions.entry_seq() =~= opened@.functions.entry_seq());
            assert(self.variables.key_seq() =~= opened@.variables.key_seq());
            assert(old(self).variables.key_seq().take(vdepth as int) =~= opened@
                .variables.key_seq());
            opened@.variables.lemma_dom();
            assert(self@.vars == old(self)@.vars.restrict(opened@@.vars.dom()));
            assert(self@ =~= merge_scope(opened@@, old(self)@)) by {
                assert(self@.funcs =~= opened@@.funcs);
            }
        }
    }

    /// Runs the loop body once per element of `items`, rebinding `value`
    /// each time, as `spec_loop_items` defines; the caller closes the
    /// scope afterwards.
    fn run_loop_items(
        &mut self,
        fuel: u64,
        value: &Identifier,
        items: &Vec<Expression>,
        body: &Block,
    ) -> (r: Result<Signal, EvalError>)
        requires
            old(self).variables.wf(),
        ensures
            final(self).variables.wf(),
            frames_preserved(*old(self), *final(self)),
            run_matches(
                spec_loop_items(
                    fuel as nat,
                    old(self)@,
                    value@,
                    exprs_view(items@),
                    block_view(body@),
                ),
                r,
                final(self)@,
            ),
        decreases fuel, 4int,
    {
        let ghost pre = *old(self);
        let ghost st0 = old(self)@;
        let ghost itemsv = exprs_view(items@);
        let ghost bodyv = block_view(body@);
        proof {
            lemma_exprs_view(items@);
            assert(itemsv.skip(0) =~= itemsv);
        }
        let mut lf: u64 = fuel;
        let mut i: usize = 0;
        while i < items.len()
            invariant
                self.variables.wf(),
                frames_preserved(pre, *self),
                pre == *old(self),
                st0 == old(self)@,
                i <= items@.len(),
                lf <= fuel,
                itemsv == exprs_view(items@),
                itemsv.len() == items@.len(),
                forall|j: int| 0 <= j < items@.len() ==> #[trigger] itemsv[j] == items@[j]@,
                bodyv == block_view(body@),
                spec_loop_items(fuel as nat, st0, value@, itemsv, bodyv) == spec_loop_items(
                    lf as nat,
                    self@,
                    value@,
                    itemsv.skip(i as int),
                    bodyv,
                ),
            decreases items@.len() - i,
        {
            if lf == 0 {
                return Err(EvalError::OutOfFuel);
            }
            lf = lf - 1;
            proof {
                assert(itemsv.skip(i as int)[0] == itemsv[i as int]);
                assert(itemsv.skip(i as int).drop_first() =~= itemsv.skip(i as int + 1));
            }
            let ghost before = *self;
            let element = items[i].duplicate();
            self.variables.set(value.clone(), element);
            let ghost bound = *self;
            proof {
                assert(frames_preserved(before, bound));
                lemma_frames_trans(pre, before, bound);
            }
            match self.run(lf, body) {
                Err(err) => {
                    proof {
                        lemma_frames_trans(pre, bound, *self);
                    }
                    return Err(err);
                },
                Ok(Signal::Normal) => {
                    proof {
                        lemma_frames_trans(pre, bound, *self);
                    }
                },
                Ok(sig) => {
                    proof {
                        lemma_frames_trans(pre, bound, *self);
                    }
                    return Ok(sig);
                },
            }
            i = i + 1;
        }
        proof {
            assert(itemsv.skip(i as int) =~= Seq::<ExpressionV>::empty());
        }
        Ok(Signal::Normal)
    }

    /// Runs the loop body over and over, as `spec_loop_forever` defines;
    /// only a signal, an error or the fuel bound ends it.
    fn run_loop_forever(&mut self, fuel: u64, body: &Block) -> (r: Result<Signal, EvalError>)
        requires
            old(self).variables.wf(),
        ensures
            final(self).variables.wf(),
            frames_preserved(*old(self), *final(self)),
            run_matches(
                spec_loop_forever(fuel as nat, old(self)@, block_view(body@)),
                r,
                final(self)@,
            ),
        decreases fuel, 4int,
    {
        let ghost pre = *old(self);
        let ghost st0 = old(self)@;
        let ghost bodyv = block_view(body@);
        let mut lf: u64 = fuel;
        loop
            invariant
                self.variables.wf(),
                frames_preserved(pre, *self),
                pre == *old(self),
                st0 == old(self)@,
                lf <= fuel,
                bodyv == block_view(body@),
                spec_loop_forever(fuel as nat, st0, bodyv) == spec_loop_forever(
                    lf as nat,
                    self@,
                    bodyv,
                ),
            decreases lf,
        {
            if lf == 0 {
                return Err(EvalError::OutOfFuel);
            }
            lf = lf - 1;
            let ghost before = *self;
            match self.run(lf, body) {
                Err(err) => {
                    proof {
                        lemma_frames_trans(pre, before, *self);
                    }
                    return Err(err);
                },
                Ok(Signal::Normal) => {
                    proof {
                        lemma_frames_trans(pre, before, *self);
                    }
                },
                Ok(sig) => {
                    proof {
                        lemma_frames_trans(pre, before, *self);
                    }
                    return Ok(sig);
                },
            }
        }
    }
}

/// Runs the already-parsed program under the given fuel bound, as
/// `spec_interpret` defines. The result carries the value of a top-level
/// return (if any) or the fault that stopped the run; beside it stands
/// the trace of effects — prints and external commands — for the host
/// to perform. On success the trace is exactly what the semantics
/// computes; after a fault it holds whatever the run had asked for up
/// to that point, which the semantics does not model further.
pub fn interpret(input: Vec<Statement>, fuel: u64) -> (r: (
    Result<Option<Expression>, EvalError>,
    Vec<Effect>,
))
    ensures
        ({
            let s = spec_interpret(fuel as nat, block_view(input@));
            match r.0 {
                Ok(v) => s == Ok::<(Option<ExpressionV>, Seq<EffectV>), EvalError>(
                    (opt_view(v), effects_view(r.1@)),
                ),
                Err(e) => s == Err::<(Option<ExpressionV>, Seq<EffectV>), EvalError>(e),
            }
        }),
{
    let mut interpreter = Interpreter::new(GlobalStore::new(), FuncStore::new(), VarStore::new());
    register_globals(&mut interpreter);
    proof {
        assert(effects_view(interpreter.output@) =~= Seq::<EffectV>::empty());
        assert(interpreter@ =~= initial_state()) by {
            assert(interpreter@.globals =~= initial_state().globals);
        }
    }
    let result = interpreter.run(fuel, &input);
    let outcome = match result {
        Err(err) => Err(err),
        Ok(Signal::Normal) => Ok(None),
        Ok(Signal::Returned(v)) => Ok(Some(v)),
        Ok(Signal::Broken) => Err(EvalError::BreakOutsideLoop),
    };
    (outcome, interpreter.output)
}

} // verus!
