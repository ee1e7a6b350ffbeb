//! The builtin operations a script can invoke by name, and the rendering
//! of values that they rely on.
//!
//! Builtins are effect-only: running one yields an `Effect` value — the
//! text a print would emit, or the argument list of an external command —
//! which the host performs after the fact. The library itself never
//! touches the console or spawns a process.

use vstd::prelude::*;

use crate::ast::{Expression, ExpressionV};
use crate::errors::EvalError;

verus! {

/// The character for the decimal digit `d`.
pub open spec fn digit_char(d: nat) -> char {
    if d == 0 {
        '0'
    } else if d == 1 {
        '1'
    } else if d == 2 {
        '2'
    } else if d == 3 {
        '3'
    } else if d == 4 {
        '4'
    } else if d == 5 {
        '5'
    } else if d == 6 {
        '6'
    } else if d == 7 {
        '7'
    } else if d == 8 {
        '8'
    } else {
        '9'
    }
}

/// The decimal digits of `n`, most significant first, with no sign and
/// no leading zero except for `n == 0` itself.
pub open spec fn nat_chars(n: nat) -> Seq<char>
    decreases n,
{
    if n < 10 {
        seq![digit_char(n)]
    } else {
        nat_chars(n / 10).push(digit_char(n % 10))
    }
}

/// The decimal rendering of `n`, with a leading minus sign when negative.
pub open spec fn number_chars(n: int) -> Seq<char> {
    if n >= 0 {
        nat_chars(n as nat)
    } else {
        seq!['-'] + nat_chars((-n) as nat)
    }
}

/// The rendering of the digit sequence `s` read back to front.
spec fn rev_digit_chars(s: Seq<u64>) -> Seq<char> {
    Seq::new(s.len(), |i: int| digit_char(s[s.len() - 1 - i] as nat))
}

/// A one-character string slice for the decimal digit `d`.
fn digit_str(d: u64) -> (r: &'static str)
    requires
        d < 10,
    ensures
        r@ == seq![digit_char(d as nat)],
{
    let r: &'static str = match d {
        0 => "0",
        1 => "1",
        2 => "2",
        3 => "3",
        4 => "4",
        5 => "5",
        6 => "6",
        7 => "7",
        8 => "8",
        _ => "9",
    };
    proof {
        reveal_strlit("0");
        reveal_strlit("1");
        reveal_strlit("2");
        reveal_strlit("3");
        reveal_strlit("4");
        reveal_strlit("5");
        reveal_strlit("6");
        reveal_strlit("7");
        reveal_strlit("8");
        reveal_strlit("9");
        assert(r@ =~= seq![digit_char(d as nat)]);
    }
    r
}

/// The decimal rendering of the unsigned number `n`.
fn nat_to_string(n: u64) -> (r: String)
    ensures
        r@ == nat_chars(n as nat),
{
    let mut digits: Vec<u64> = Vec::new();
    digits.push(n % 10);
    let mut m: u64 = n / 10;
    while m > 0
        invariant
            forall|j: int| 0 <= j < digits@.len() ==> #[trigger] digits@[j] < 10,
            digits@.len() >= 1,
            m > 0 ==> nat_chars(n as nat) =~= nat_chars(m as nat) + rev_digit_chars(digits@),
            m == 0 ==> nat_chars(n as nat) =~= rev_digit_chars(digits@),
        decreases m,
    {
        let ghost old_digits = digits@;
        let ghost old_m = m;
        digits.push(m % 10);
        m = m / 10;
        proof {
            assert(rev_digit_chars(old_digits.push(old_m % 10)) =~= seq![
                digit_char((old_m % 10) as nat),
            ] + rev_digit_chars(old_digits));
            if old_m >= 10 {
                assert(nat_chars(old_m as nat) == nat_chars((old_m / 10) as nat).push(
                    digit_char((old_m % 10) as nat),
                ));
                assert(nat_chars(n as nat) =~= nat_chars(m as nat) + rev_digit_chars(digits@));
            } else {
                assert(nat_chars(old_m as nat) =~= seq![digit_char((old_m % 10) as nat)]);
                assert(nat_chars(n as nat) =~= rev_digit_chars(digits@));
            }
        }
    }
    let mut r = String::new();
    let mut i: usize = digits.len();
    while i > 0
        invariant
            i <= digits@.len(),
            forall|j: int| 0 <= j < digits@.len() ==> #[trigger] digits@[j] < 10,
            nat_chars(n as nat) =~= rev_digit_chars(digits@),
            r@ =~= rev_digit_chars(digits@).take(digits@.len() - i),
        decreases i,
    {
        i = i - 1;
        let d = digits[i];
        r.append(digit_str(d));
        proof {
            assert(r@ =~= rev_digit_chars(digits@).take(digits@.len() - i));
        }
    }
    proof {
        assert(r@ =~= nat_chars(n as nat));
    }
    r
}

/// The decimal rendering of the number `n`, sign included.
pub fn number_to_string(n: i64) -> (r: String)
    ensures
        r@ == number_chars(n as int),
{
    if n >= 0 {
        nat_to_string(n as u64)
    } else {
        let magnitude: u64 = (-(n + 1)) as u64 + 1;
        let digits = nat_to_string(magnitude);
        let mut r = "-".to_owned();
        r.append(digits.as_str());
        proof {
            reveal_strlit("-");
            assert(magnitude as int == -(n as int));
            assert(r@ =~= number_chars(n as int));
        }
        r
    }
}

/// True when `v` is a value that the print builtin can render: a number,
/// string or boolean, or a list of renderable values.
pub open spec fn is_renderable(v: ExpressionV) -> bool
    decreases v, 1int,
{
    match v {
        ExpressionV::Number(_) => true,
        ExpressionV::String(_) => true,
        ExpressionV::Boolean(_) => true,
        ExpressionV::List(items) => all_renderable(items),
        _ => false,
    }
}

/// True when every value in `items` is renderable.
pub open spec fn all_renderable(items: Seq<ExpressionV>) -> bool
    decreases items, 0int,
{
    if items.len() == 0 {
        true
    } else {
        all_renderable(items.drop_last()) && is_renderable(items.last())
    }
}

/// `all_renderable` holds exactly when each element is renderable.
pub broadcast proof fn lemma_all_renderable(items: Seq<ExpressionV>)
    ensures
        #[trigger] all_renderable(items) <==> (forall|i: int|
            0 <= i < items.len() ==> is_renderable(#[trigger] items[i])),
    decreases items.len(),
{
    if items.len() > 0 {
        lemma_all_renderable(items.drop_last());
        assert(forall|i: int|
            0 <= i < items.len() - 1 ==> items.drop_last()[i] == #[trigger] items[i]);
        assert(items.last() == items[items.len() - 1]);
    }
}

/// The text that the print builtin emits for the value `v`: numbers and
/// booleans literally, strings raw, and lists as `[ v1, v2 ]`,
/// recursively. Empty for values that are not renderable.
pub open spec fn render_chars(v: ExpressionV) -> Seq<char>
    decreases v, 1int,
{
    match v {
        ExpressionV::Number(n) => number_chars(n),
        ExpressionV::String(s) => s,
        ExpressionV::Boolean(b) => if b {
            "true"@
        } else {
            "false"@
        },
        ExpressionV::List(items) => "[ "@ + render_items(items) + " ]"@,
        _ => Seq::empty(),
    }
}

/// The renderings of the values in `items`, joined by `", "`.
pub open spec fn render_items(items: Seq<ExpressionV>) -> Seq<char>
    decreases items, 0int,
{
    if items.len() == 0 {
        Seq::empty()
    } else if items.len() == 1 {
        render_chars(items[0])
    } else {
        render_items(items.drop_last()) + ", "@ + render_chars(items.last())
    }
}

/// The rendering of the value `e`, or the builtin-argument error when `e`
/// is no renderable value.
pub fn render_value(e: &Expression) -> (r: Result<String, EvalError>)
    ensures
        match r {
            Ok(s) => is_renderable(e@) && s@ == render_chars(e@),
            Err(err) => !is_renderable(e@) && err == EvalError::InvalidBuiltinArgument,
        },
    decreases *e,
{
    match e {
        Expression::Number(n) => Ok(number_to_string(*n)),
        Expression::String(s) => Ok(s.clone()),
        Expression::Boolean(b) => Ok(if *b {
            "true".to_owned()
        } else {
            "false".to_owned()
        }),
        Expression::List(items) => {
            let ghost itemsv = crate::ast::exprs_view(items@);
            proof {
                crate::ast::lemma_exprs_view(items@);
                lemma_all_renderable(itemsv);
            }
            let mut acc = "[ ".to_owned();
            let mut i: usize = 0;
            while i < items.len()
                invariant
                    *e == Expression::List(*items),
                    i <= items@.len(),
                    itemsv == crate::ast::exprs_view(items@),
                    itemsv.len() == items@.len(),
                    forall|j: int|
                        0 <= j < items@.len() ==> #[trigger] itemsv[j] == crate::ast::expr_view(
                            items@[j],
                        ),
                    forall|j: int| 0 <= j < i as int ==> is_renderable(#[trigger] itemsv[j]),
                    acc@ =~= "[ "@ + render_items(itemsv.take(i as int)),
                decreases items@.len() - i,
            {
                proof {
                    assert(decreases_to!(*e => (*e)->List_0));
                    assert((*e)->List_0 == *items);
                    assert(decreases_to!(*items => items@));
                    assert(decreases_to!(items@ => items@[i as int]));
                    assert(decreases_to!(*e => items@[i as int]));
                }
                let element = &items[i];
                let rendered = match render_value(element) {
                    Ok(s) => s,
                    Err(err) => {
                        proof {
                            lemma_all_renderable(itemsv);
                            assert(itemsv[i as int] == element@);
                            assert(!is_renderable(itemsv[i as int]));
                            assert(!all_renderable(itemsv));
                        }
                        return Err(err);
                    },
                };
                if i > 0 {
                    acc.append(", ");
                }
                acc.append(rendered.as_str());
                proof {
                    reveal_strlit(", ");
                    let taken = itemsv.take(i + 1 as int);
                    assert(taken.drop_last() =~= itemsv.take(i as int));
                    assert(taken.last() == itemsv[i as int]);
                    if i == 0 {
                        assert(render_items(taken) == render_chars(itemsv[0]));
                    }
                    assert(acc@ =~= "[ "@ + render_items(itemsv.take(i + 1 as int)));
                }
                i = i + 1;
            }
            acc.append(" ]");
            proof {
                lemma_all_renderable(itemsv);
                assert(itemsv.take(items@.len() as int) =~= itemsv);
                assert(acc@ =~= render_chars(e@));
            }
            Ok(acc)
        },
        _ => Err(EvalError::InvalidBuiltinArgument),
    }
}

/// True when `v` can be coerced to a command-line word: a number, string
/// or boolean value.
pub open spec fn is_coercible(v: ExpressionV) -> bool {
    match v {
        ExpressionV::Number(_) => true,
        ExpressionV::String(_) => true,
        ExpressionV::Boolean(_) => true,
        _ => false,
    }
}

/// The command-line word for the scalar value `v`.
pub open spec fn coerce_chars(v: ExpressionV) -> Seq<char> {
    match v {
        ExpressionV::Number(n) => number_chars(n),
        ExpressionV::String(s) => s,
        ExpressionV::Boolean(b) => if b {
            "true"@
        } else {
            "false"@
        },
        _ => Seq::empty(),
    }
}

/// The command-line word for the scalar value `input`, or the
/// builtin-argument error when `input` is no scalar.
pub fn get_print(input: Expression) -> (r: Result<String, EvalError>)
    ensures
        match r {
            Ok(s) => is_coercible(input@) && s@ == coerce_chars(input@),
            Err(err) => !is_coercible(input@) && err == EvalError::InvalidBuiltinArgument,
        },
{
    match input {
        Expression::Number(n) => Ok(number_to_string(n)),
        Expression::String(s) => Ok(s),
        Expression::Boolean(b) => Ok(if b {
            "true".to_owned()
        } else {
            "false".to_owned()
        }),
        _ => Err(EvalError::InvalidBuiltinArgument),
    }
}

/// A side effect that a script asked for and the host performs: text to
/// print, or an external command to run and wait for.
#[derive(Debug, PartialEq)]
pub enum Effect {
    Print(String),
    Command(Vec<String>),
}

/// The model of an effect.
pub enum EffectV {
    Print(Seq<char>),
    Command(Seq<Seq<char>>),
}

impl View for Effect {
    type V = EffectV;

    open spec fn view(&self) -> EffectV {
        match self {
            Effect::Print(s) => EffectV::Print(s@),
            Effect::Command(words) => EffectV::Command(
                Seq::new(words@.len(), |i: int| words@[i]@),
            ),
        }
    }
}

/// The renderings of the values in `args`, concatenated without
/// separators.
pub open spec fn concat_renders(args: Seq<ExpressionV>) -> Seq<char>
    decreases args,
{
    if args.len() == 0 {
        Seq::empty()
    } else {
        concat_renders(args.drop_last()) + render_chars(args.last())
    }
}

/// The whole text that one print call emits: each argument rendered in
/// order, then a newline.
pub open spec fn print_chars(args: Seq<ExpressionV>) -> Seq<char> {
    concat_renders(args) + "\n"@
}

/// The command words of one command call: each argument coerced in order,
/// the first being the command name.
pub open spec fn command_words(args: Seq<ExpressionV>) -> Seq<Seq<char>> {
    Seq::new(args.len(), |i: int| coerce_chars(args[i]))
}

/// What running the builtin `s` on the already-evaluated values `args`
/// yields: the effect to perform, or the error that rejects the
/// arguments.
pub open spec fn spec_builtin(s: Std, args: Seq<ExpressionV>) -> Result<EffectV, EvalError> {
    match s {
        Std::Print => if all_renderable(args) {
            Ok(EffectV::Print(print_chars(args)))
        } else {
            Err(EvalError::InvalidBuiltinArgument)
        },
        Std::Cmd => if args.len() == 0 {
            Err(EvalError::EmptyCommand)
        } else if forall|i: int| 0 <= i < args.len() ==> is_coercible(#[trigger] args[i]) {
            Ok(EffectV::Command(command_words(args)))
        } else {
            Err(EvalError::InvalidBuiltinArgument)
        },
    }
}

/// The builtin operations that scripts can call by name.
#[derive(Debug, Clone, Copy, PartialEq, Eq, Structural)]
pub enum Std {
    Print,
    Cmd,
}

impl Std {
    /// Runs this builtin on the already-evaluated values `input`, yielding
    /// the effect for the host to perform.
    pub fn run(&self, input: Vec<Expression>) -> (r: Result<Effect, EvalError>)
        ensures
            ({
                let s = spec_builtin(*self, crate::ast::exprs_view(input@));
                match r {
                    Ok(eff) => s == Ok::<EffectV, EvalError>(eff@),
                    Err(e) => s == Err::<EffectV, EvalError>(e),
                }
            }),
    {
        let ghost argsv = crate::ast::exprs_view(input@);
        proof {
            crate::ast::lemma_exprs_view(input@);
        }
        match self {
            Std::Print => {
                let mut acc = String::new();
                let mut i: usize = 0;
                while i < input.len()
                    invariant
                        *self == Std::Print,
                        i <= input@.len(),
                        argsv == crate::ast::exprs_view(input@),
                        argsv.len() == input@.len(),
                        forall|j: int|
                            0 <= j < input@.len() ==> #[trigger] argsv[j] == crate::ast::expr_view(
                                input@[j],
                            ),
                        forall|j: int| 0 <= j < i as int ==> is_renderable(#[trigger] argsv[j]),
                        acc@ =~= concat_renders(argsv.take(i as int)),
                    decreases input@.len() - i,
                {
                    let rendered = match render_value(&input[i]) {
                        Ok(s) => s,
                        Err(err) => {
                            proof {
                                lemma_all_renderable(argsv);
                                assert(!is_renderable(argsv[i as int]));
                            }
                            return Err(err);
                        },
                    };
                    acc.append(rendered.as_str());
                    proof {
                        let taken = argsv.take(i + 1 as int);
                        assert(taken.drop_last() =~= argsv.take(i as int));
                        assert(taken.last() == argsv[i as int]);
                        assert(acc@ =~= concat_renders(argsv.take(i + 1 as int)));
                    }
                    i = i + 1;
                }
                acc.append("\n");
                proof {
                    lemma_all_renderable(argsv);
                    assert(argsv.take(input@.len() as int) =~= argsv);
                    assert(acc@ =~= print_chars(argsv));
                }
                Ok(Effect::Print(acc))
            },
            Std::Cmd => {
                if input.len() == 0 {
                    return Err(EvalError::EmptyCommand);
                }
                let mut words: Vec<String> = Vec::new();
                let mut i: usize = 0;
                while i < input.len()
                    invariant
                        *self == Std::Cmd,
                        input@.len() > 0,
                        i <= input@.len(),
                        argsv == crate::ast::exprs_view(input@),
                        argsv.len() == input@.len(),
                        forall|j: int|
                            0 <= j < input@.len() ==> #[trigger] argsv[j] == crate::ast::expr_view(
                                input@[j],
                            ),
                        words@.len() == i as int,
                        forall|j: int|
                            0 <= j < i as int ==> is_coercible(#[trigger] argsv[j]) && words@[j]@
                                == coerce_chars(argsv[j]),
                    decreases input@.len() - i,
                {
                    let word = match get_print(input[i].duplicate()) {
                        Ok(s) => s,
                        Err(err) => {
                            proof {
                                assert(!is_coercible(argsv[i as int]));
                            }
                            return Err(err);
                        },
                    };
                    words.push(word);
                    i = i + 1;
                }
                proof {
                    assert(Effect::Command(words)@ matches EffectV::Command(w) && w =~~=
                        command_words(argsv));
                }
                Ok(Effect::Command(words))
            },
        }
    }
}

} // verus!

