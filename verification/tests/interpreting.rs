use pcli::ast::{Expression, LoopBinding, Op, Parameter, Statement};
use pcli::env::{FuncStore, GlobalStore, VarStore};
use pcli::errors::EvalError;
use pcli::interpreter::{interpret, Interpreter};
use pcli::parser::parse;
use pcli::stdlib::{get_print, number_to_string, Effect, Std};
use pcli::token::Token;

const FUEL: u64 = 1_000_000;

fn ident(name: &str) -> Expression {
    Expression::Identifier(String::from(name))
}

fn number(n: i64) -> Expression {
    Expression::Number(n)
}

fn print_call(args: Vec<Expression>) -> Statement {
    Statement::Expression {
        expression: Expression::Call(ident("print").boxed(), args),
    }
}

fn let_stmt(name: &str, initial: Expression) -> Statement {
    Statement::Let { name: String::from(name), initial: Some(initial) }
}

fn counted_loop(name: &str, items: Vec<Expression>, body: Vec<Statement>) -> Statement {
    Statement::Loop {
        binding: Some(LoopBinding {
            value: String::from(name),
            iterable: Expression::List(items),
        }),
        then: body,
    }
}

#[test]
fn mod_test1() {
    // print("Hello \n", [1, 2, 3], "\n"); print("world \n")
    let input = vec![
        print_call(vec![
            Expression::String(String::from("Hello \n")),
            Expression::List(vec![number(1), number(2), number(3)]),
            Expression::String(String::from("\n")),
        ]),
        print_call(vec![Expression::String(String::from("world \n"))]),
    ];
    let (outcome, effects) = interpret(input, FUEL);
    let value = outcome.unwrap();
    assert_eq!(value, None);
    assert_eq!(
        effects,
        vec![
            Effect::Print(String::from("Hello \n[ 1, 2, 3 ]\n\n")),
            Effect::Print(String::from("world \n\n")),
        ]
    );
}

#[test]
fn stdlib_print_run() {
    let effect = Std::Print
        .run(vec![
            Expression::String(String::from("Hello ")),
            Expression::List(vec![number(1), number(2), number(3)]),
            Expression::String(String::from("\n")),
        ])
        .unwrap();
    assert_eq!(effect, Effect::Print(String::from("Hello [ 1, 2, 3 ]\n\n")));
}

fn scope_body() -> Vec<Statement> {
    vec![
        let_stmt("y", number(5)),
        Statement::Expression {
            expression: Expression::Assign(ident("x").boxed(), number(9).boxed()),
        },
    ]
}

#[test]
fn loop_scoping_keeps_mutations_and_drops_new_names() {
    // let x = 0; loop (let i : [1]) { let y = 5; x = 9 }; return x  ==> 9
    let program = vec![
        let_stmt("x", number(0)),
        counted_loop("i", vec![number(1)], scope_body()),
        Statement::Return { value: Some(ident("x")) },
    ];
    let value = interpret(program, FUEL).0.unwrap();
    assert_eq!(value, Some(number(9)));

    // ... but y, declared inside the loop body, is gone afterwards
    let program = vec![
        let_stmt("x", number(0)),
        counted_loop("i", vec![number(1)], scope_body()),
        Statement::Return { value: Some(ident("y")) },
    ];
    assert_eq!(interpret(program, FUEL).0, Err(EvalError::UndefinedVariable));
}

#[test]
fn loop_variable_is_scoped_to_the_loop() {
    let program = vec![
        counted_loop("i", vec![number(1), number(2)], vec![]),
        Statement::Return { value: Some(ident("i")) },
    ];
    assert_eq!(interpret(program, FUEL).0, Err(EvalError::UndefinedVariable));
}

#[test]
fn break_stops_the_loop_before_later_elements() {
    // loop (let i : [1,2,3]) { print(i) break }; print("done")
    let program = vec![
        counted_loop(
            "i",
            vec![number(1), number(2), number(3)],
            vec![print_call(vec![ident("i")]), Statement::Break],
        ),
        print_call(vec![Expression::String(String::from("done"))]),
    ];
    let (outcome, effects) = interpret(program, FUEL);
    let value = outcome.unwrap();
    assert_eq!(value, None);
    assert_eq!(
        effects,
        vec![
            Effect::Print(String::from("1\n")),
            Effect::Print(String::from("done\n")),
        ]
    );
}

#[test]
fn return_propagates_out_of_the_if_and_skips_the_rest() {
    // fn f(c) { if c { return 1 } print("after") }; return f(true)
    let body = vec![
        Statement::If {
            condition: ident("c"),
            then: vec![Statement::Return { value: Some(number(1)) }],
            otherwise: None,
        },
        print_call(vec![Expression::String(String::from("after"))]),
    ];
    let program = vec![
        Statement::FunctionDeclaration {
            name: String::from("f"),
            params: vec![Parameter { name: String::from("c") }],
            body,
        },
        Statement::Return {
            value: Some(Expression::Call(
                ident("f").boxed(),
                vec![Expression::Boolean(true)],
            )),
        },
    ];
    let (outcome, effects) = interpret(program, FUEL);
    let value = outcome.unwrap();
    assert_eq!(value, Some(number(1)));
    assert_eq!(effects, vec![]);
}

fn two_parameter_fn() -> Statement {
    Statement::FunctionDeclaration {
        name: String::from("g"),
        params: vec![
            Parameter { name: String::from("a") },
            Parameter { name: String::from("b") },
        ],
        body: vec![Statement::Return { value: Some(ident("a")) }],
    }
}

#[test]
fn call_arity_mismatch_fails_both_ways() {
    let too_few = vec![
        two_parameter_fn(),
        Statement::Expression {
            expression: Expression::Call(ident("g").boxed(), vec![number(1)]),
        },
    ];
    assert_eq!(interpret(too_few, FUEL).0, Err(EvalError::ArityMismatch));

    let too_many = vec![
        two_parameter_fn(),
        Statement::Expression {
            expression: Expression::Call(
                ident("g").boxed(),
                vec![number(1), number(2), number(3)],
            ),
        },
    ];
    assert_eq!(interpret(too_many, FUEL).0, Err(EvalError::ArityMismatch));

    let exact = vec![
        two_parameter_fn(),
        Statement::Return {
            value: Some(Expression::Call(
                ident("g").boxed(),
                vec![number(7), number(8)],
            )),
        },
    ];
    let value = interpret(exact, FUEL).0.unwrap();
    assert_eq!(value, Some(number(7)));
}

#[test]
fn literal_evaluation_is_idempotent() {
    let mut interpreter =
        Interpreter::new(GlobalStore::new(), FuncStore::new(), VarStore::new());
    for literal in [
        number(42),
        Expression::String(String::from("hi")),
        Expression::Boolean(true),
    ] {
        let first = interpreter.evaluate(FUEL, &literal).unwrap();
        let second = interpreter.evaluate(FUEL, &literal).unwrap();
        let third = interpreter.evaluate(FUEL, &literal).unwrap();
        assert_eq!(first, second);
        assert_eq!(second, third);
    }
}

#[test]
fn end_to_end_sum_over_loop() {
    // let x = 0  loop (let i : [1, 2, 3]) { x = x + i }  return x  ==> 6
    let tokens = vec![
        Token::Let,
        Token::Identifier(String::from("x")),
        Token::Assign,
        Token::Number(0),
        Token::Loop,
        Token::LeftParen,
        Token::Let,
        Token::Identifier(String::from("i")),
        Token::Colon,
        Token::LeftBracket,
        Token::Number(1),
        Token::Comma,
        Token::Number(2),
        Token::Comma,
        Token::Number(3),
        Token::RightBracket,
        Token::RightParen,
        Token::LeftBrace,
        Token::Identifier(String::from("x")),
        Token::Assign,
        Token::Identifier(String::from("x")),
        Token::Plus,
        Token::Identifier(String::from("i")),
        Token::RightBrace,
        Token::Return,
        Token::Identifier(String::from("x")),
    ];
    let program = parse(tokens).unwrap();
    let (outcome, effects) = interpret(program, FUEL);
    let value = outcome.unwrap();
    assert_eq!(value, Some(number(6)));
    assert_eq!(effects, vec![]);
}

#[test]
fn undefined_identifier_is_fatal() {
    let program = vec![Statement::Expression { expression: ident("nope") }];
    assert_eq!(interpret(program, FUEL).0, Err(EvalError::UndefinedVariable));
}

#[test]
fn undefined_function_is_fatal() {
    let program = vec![Statement::Expression {
        expression: Expression::Call(ident("nope").boxed(), vec![]),
    }];
    assert_eq!(interpret(program, FUEL).0, Err(EvalError::UndefinedFunction));
}

#[test]
fn callee_must_be_an_identifier() {
    let program = vec![Statement::Expression {
        expression: Expression::Call(number(1).boxed(), vec![]),
    }];
    assert_eq!(interpret(program, FUEL).0, Err(EvalError::CalleeNotIdentifier));
}

#[test]
fn unsupported_operand_types_are_fatal() {
    let program = vec![Statement::Expression {
        expression: Expression::Infix(
            number(1).boxed(),
            Op::Add,
            Expression::Boolean(true).boxed(),
        ),
    }];
    assert_eq!(interpret(program, FUEL).0, Err(EvalError::UnsupportedOperation));
}

#[test]
fn division_by_zero_is_fatal() {
    let program = vec![Statement::Expression {
        expression: Expression::Infix(number(1).boxed(), Op::Divide, number(0).boxed()),
    }];
    assert_eq!(interpret(program, FUEL).0, Err(EvalError::DivisionByZero));
}

#[test]
fn arithmetic_overflow_is_fatal() {
    let program = vec![Statement::Expression {
        expression: Expression::Infix(
            number(i64::MAX).boxed(),
            Op::Add,
            number(1).boxed(),
        ),
    }];
    assert_eq!(interpret(program, FUEL).0, Err(EvalError::Overflow));
}

#[test]
fn assignment_to_undeclared_name_is_fatal() {
    let program = vec![Statement::Expression {
        expression: Expression::Assign(ident("x").boxed(), number(1).boxed()),
    }];
    assert_eq!(interpret(program, FUEL).0, Err(EvalError::AssignToUndefined));
}

#[test]
fn assignment_target_must_be_an_identifier() {
    let program = vec![Statement::Expression {
        expression: Expression::Assign(number(1).boxed(), number(2).boxed()),
    }];
    assert_eq!(
        interpret(program, FUEL).0,
        Err(EvalError::AssignTargetNotIdentifier)
    );
}

#[test]
fn let_needs_a_value() {
    let program = vec![Statement::Let { name: String::from("x"), initial: None }];
    assert_eq!(interpret(program, FUEL).0, Err(EvalError::LetWithoutValue));
}

#[test]
fn condition_must_be_boolean() {
    let program = vec![Statement::If {
        condition: number(1),
        then: vec![],
        otherwise: None,
    }];
    assert_eq!(interpret(program, FUEL).0, Err(EvalError::ConditionNotBoolean));
}

#[test]
fn iterable_must_be_a_list() {
    let program = vec![Statement::Loop {
        binding: Some(LoopBinding { value: String::from("i"), iterable: number(1) }),
        then: vec![],
    }];
    assert_eq!(interpret(program, FUEL).0, Err(EvalError::IterableNotList));
}

#[test]
fn break_outside_a_loop_is_fatal() {
    let program = vec![Statement::Break];
    assert_eq!(interpret(program, FUEL).0, Err(EvalError::BreakOutsideLoop));
}

#[test]
fn unbounded_loop_runs_out_of_fuel() {
    let program = vec![Statement::Loop { binding: None, then: vec![] }];
    assert_eq!(interpret(program, 1000).0, Err(EvalError::OutOfFuel));
}

#[test]
fn command_builtin_records_its_words() {
    // cmd("echo", 7, true)
    let program = vec![Statement::Expression {
        expression: Expression::Call(
            ident("cmd").boxed(),
            vec![
                Expression::String(String::from("echo")),
                number(7),
                Expression::Boolean(true),
            ],
        ),
    }];
    let (outcome, effects) = interpret(program, FUEL);
    assert!(outcome.is_ok());
    assert_eq!(
        effects,
        vec![Effect::Command(vec![
            String::from("echo"),
            String::from("7"),
            String::from("true"),
        ])]
    );
}

#[test]
fn command_builtin_needs_a_name() {
    let program = vec![Statement::Expression {
        expression: Expression::Call(ident("cmd").boxed(), vec![]),
    }];
    assert_eq!(interpret(program, FUEL).0, Err(EvalError::EmptyCommand));
}

#[test]
fn command_builtin_rejects_lists() {
    let program = vec![Statement::Expression {
        expression: Expression::Call(
            ident("cmd").boxed(),
            vec![Expression::List(vec![number(1)])],
        ),
    }];
    assert_eq!(interpret(program, FUEL).0, Err(EvalError::InvalidBuiltinArgument));
}

#[test]
fn list_element_without_value_is_fatal() {
    // [x = 1] — an assignment yields no value, so the list fails
    let program = vec![
        let_stmt("x", number(0)),
        Statement::Expression {
            expression: Expression::List(vec![Expression::Assign(
                ident("x").boxed(),
                number(1).boxed(),
            )]),
        },
    ];
    assert_eq!(interpret(program, FUEL).0, Err(EvalError::ElementWithoutValue));
}

#[test]
fn effects_before_a_fault_are_kept() {
    // print("one"); nope
    let program = vec![
        print_call(vec![Expression::String(String::from("one"))]),
        Statement::Expression { expression: ident("nope") },
    ];
    let (outcome, effects) = interpret(program, FUEL);
    assert_eq!(outcome, Err(EvalError::UndefinedVariable));
    assert_eq!(effects, vec![Effect::Print(String::from("one\n"))]);
}

#[test]
fn printing_an_empty_list() {
    let program = vec![print_call(vec![Expression::List(vec![])])];
    let (outcome, effects) = interpret(program, FUEL);
    assert!(outcome.is_ok());
    assert_eq!(effects, vec![Effect::Print(String::from("[  ]\n"))]);
}

#[test]
fn number_rendering_exact_values() {
    assert_eq!(number_to_string(0), "0");
    assert_eq!(number_to_string(123), "123");
    assert_eq!(number_to_string(-5), "-5");
    assert_eq!(number_to_string(i64::MIN), "-9223372036854775808");
    assert_eq!(number_to_string(i64::MAX), "9223372036854775807");
}

#[test]
fn get_print_coerces_scalars() {
    assert_eq!(get_print(number(12)).unwrap(), "12");
    assert_eq!(get_print(Expression::String(String::from("ok"))).unwrap(), "ok");
    assert_eq!(get_print(Expression::Boolean(false)).unwrap(), "false");
    assert_eq!(
        get_print(Expression::List(vec![])),
        Err(EvalError::InvalidBuiltinArgument)
    );
}

#[test]
fn modulo_and_comparisons_work() {
    // return 7 % 3
    let program = vec![Statement::Return {
        value: Some(Expression::Infix(number(7).boxed(), Op::Modulo, number(3).boxed())),
    }];
    let value = interpret(program, FUEL).0.unwrap();
    assert_eq!(value, Some(number(1)));

    // return 2 < 3
    let program = vec![Statement::Return {
        value: Some(Expression::Infix(
            number(2).boxed(),
            Op::LessThan,
            number(3).boxed(),
        )),
    }];
    let value = interpret(program, FUEL).0.unwrap();
    assert_eq!(value, Some(Expression::Boolean(true)));

    // return "a" == "a"
    let program = vec![Statement::Return {
        value: Some(Expression::Infix(
            Expression::String(String::from("a")).boxed(),
            Op::Equals,
            Expression::String(String::from("a")).boxed(),
        )),
    }];
    let value = interpret(program, FUEL).0.unwrap();
    assert_eq!(value, Some(Expression::Boolean(true)));
}

#[test]
fn prefix_operators_work() {
    let program = vec![Statement::Return {
        value: Some(Expression::Prefix(Op::Subtract, number(5).boxed())),
    }];
    let value = interpret(program, FUEL).0.unwrap();
    assert_eq!(value, Some(number(-5)));

    let program = vec![Statement::Return {
        value: Some(Expression::Prefix(Op::Not, Expression::Boolean(true).boxed())),
    }];
    let value = interpret(program, FUEL).0.unwrap();
    assert_eq!(value, Some(Expression::Boolean(false)));
}

#[test]
fn eval_error_messages_name_the_fault() {
    assert_eq!(EvalError::UndefinedVariable.message(), "Wrong identifier.");
    assert_eq!(EvalError::ArityMismatch.message(), "Provide necessary arguments.");
}
