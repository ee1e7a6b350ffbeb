use pcli::ast::{Expression, LoopBinding, Op, Parameter, Statement};
use pcli::errors::ParseError;
use pcli::parser::parse;
use pcli::token::Token;

fn ident(name: &str) -> Expression {
    Expression::Identifier(String::from(name))
}

#[test]
fn precedence_groups_product_tighter() {
    // "1 + 2 * 3"
    let tokens = vec![
        Token::Number(1),
        Token::Plus,
        Token::Number(2),
        Token::Asterisk,
        Token::Number(3),
    ];
    let program = parse(tokens).unwrap();
    assert_eq!(
        program,
        vec![Statement::Expression {
            expression: Expression::Infix(
                Expression::Number(1).boxed(),
                Op::Add,
                Expression::Infix(
                    Expression::Number(2).boxed(),
                    Op::Multiply,
                    Expression::Number(3).boxed(),
                )
                .boxed(),
            )
        }]
    );
}

#[test]
fn parenthesization_overrides_precedence() {
    // "(1 + 2) * 3"
    let tokens = vec![
        Token::LeftParen,
        Token::Number(1),
        Token::Plus,
        Token::Number(2),
        Token::RightParen,
        Token::Asterisk,
        Token::Number(3),
    ];
    let program = parse(tokens).unwrap();
    assert_eq!(
        program,
        vec![Statement::Expression {
            expression: Expression::Infix(
                Expression::Infix(
                    Expression::Number(1).boxed(),
                    Op::Add,
                    Expression::Number(2).boxed(),
                )
                .boxed(),
                Op::Multiply,
                Expression::Number(3).boxed(),
            )
        }]
    );
}

#[test]
fn parse_let_test1() {
    // let x = " Hello"
    let tokens = vec![
        Token::Let,
        Token::Identifier(String::from("x")),
        Token::Assign,
        Token::String(String::from(" Hello")),
    ];
    assert_eq!(
        parse(tokens).unwrap(),
        vec![Statement::Let {
            name: String::from("x"),
            initial: Some(Expression::String(String::from(" Hello"))),
        }]
    );
}

#[test]
fn parse_let_test2() {
    // let x = 10 + 3 * 2
    let tokens = vec![
        Token::Let,
        Token::Identifier(String::from("x")),
        Token::Assign,
        Token::Number(10),
        Token::Plus,
        Token::Number(3),
        Token::Asterisk,
        Token::Number(2),
    ];
    assert_eq!(
        parse(tokens).unwrap(),
        vec![Statement::Let {
            name: String::from("x"),
            initial: Some(Expression::Infix(
                Expression::Number(10).boxed(),
                Op::Add,
                Expression::Infix(
                    Expression::Number(3).boxed(),
                    Op::Multiply,
                    Expression::Number(2).boxed(),
                )
                .boxed(),
            )),
        }]
    );
}

#[test]
fn parse_let_test3() {
    // let x = true
    let tokens = vec![
        Token::Let,
        Token::Identifier(String::from("x")),
        Token::Assign,
        Token::True,
    ];
    assert_eq!(
        parse(tokens).unwrap(),
        vec![Statement::Let {
            name: String::from("x"),
            initial: Some(Expression::Boolean(true)),
        }]
    );
}

#[test]
fn parse_let_test4() {
    // let x1 = "10"
    let tokens = vec![
        Token::Let,
        Token::Identifier(String::from("x1")),
        Token::Assign,
        Token::String(String::from("10")),
    ];
    assert_eq!(
        parse(tokens).unwrap(),
        vec![Statement::Let {
            name: String::from("x1"),
            initial: Some(Expression::String(String::from("10"))),
        }]
    );
}

#[test]
fn parse_let_test5() {
    // let x = (y + 1) * k
    let tokens = vec![
        Token::Let,
        Token::Identifier(String::from("x")),
        Token::Assign,
        Token::LeftParen,
        Token::Identifier(String::from("y")),
        Token::Plus,
        Token::Number(1),
        Token::RightParen,
        Token::Asterisk,
        Token::Identifier(String::from("k")),
    ];
    assert_eq!(
        parse(tokens).unwrap(),
        vec![Statement::Let {
            name: String::from("x"),
            initial: Some(Expression::Infix(
                Expression::Infix(ident("y").boxed(), Op::Add, Expression::Number(1).boxed())
                    .boxed(),
                Op::Multiply,
                ident("k").boxed(),
            )),
        }]
    );
}

#[test]
fn parse_loop_test2() {
    // loop (let x : p) { }
    let tokens = vec![
        Token::Loop,
        Token::LeftParen,
        Token::Let,
        Token::Identifier(String::from("x")),
        Token::Colon,
        Token::Identifier(String::from("p")),
        Token::RightParen,
        Token::LeftBrace,
        Token::RightBrace,
    ];
    assert_eq!(
        parse(tokens).unwrap(),
        vec![Statement::Loop {
            binding: Some(LoopBinding { value: String::from("x"), iterable: ident("p") }),
            then: vec![],
        }]
    );
}

#[test]
fn parse_let_test6() {
    // "let 1x = 10": a number is no name to declare
    let tokens = vec![
        Token::Let,
        Token::Number(1),
        Token::Identifier(String::from("x")),
        Token::Assign,
        Token::Number(10),
    ];
    match parse(tokens) {
        Ok(_) => panic!("need to fail"),
        Err(_e) => {}
    }
}

#[test]
fn parse_let_test7() {
    // let x = [1, "Hello", true, a]
    let tokens = vec![
        Token::Let,
        Token::Identifier(String::from("x")),
        Token::Assign,
        Token::LeftBracket,
        Token::Number(1),
        Token::Comma,
        Token::String(String::from("Hello")),
        Token::Comma,
        Token::True,
        Token::Comma,
        Token::Identifier(String::from("a")),
        Token::RightBracket,
    ];
    assert_eq!(
        parse(tokens).unwrap(),
        vec![Statement::Let {
            name: String::from("x"),
            initial: Some(Expression::List(vec![
                Expression::Number(1),
                Expression::String(String::from("Hello")),
                Expression::Boolean(true),
                ident("a"),
            ])),
        }]
    );
}

#[test]
fn parse_let_test8() {
    // let x = [1, [2, 3, [5]]]
    let tokens = vec![
        Token::Let,
        Token::Identifier(String::from("x")),
        Token::Assign,
        Token::LeftBracket,
        Token::Number(1),
        Token::Comma,
        Token::LeftBracket,
        Token::Number(2),
        Token::Comma,
        Token::Number(3),
        Token::Comma,
        Token::LeftBracket,
        Token::Number(5),
        Token::RightBracket,
        Token::RightBracket,
        Token::RightBracket,
    ];
    assert_eq!(
        parse(tokens).unwrap(),
        vec![Statement::Let {
            name: String::from("x"),
            initial: Some(Expression::List(vec![
                Expression::Number(1),
                Expression::List(vec![
                    Expression::Number(2),
                    Expression::Number(3),
                    Expression::List(vec![Expression::Number(5)]),
                ]),
            ])),
        }]
    );
}

#[test]
fn parse_expr_test1() {
    // x = x + 1
    let tokens = vec![
        Token::Identifier(String::from("x")),
        Token::Assign,
        Token::Identifier(String::from("x")),
        Token::Plus,
        Token::Number(1),
    ];
    assert_eq!(
        parse(tokens).unwrap(),
        vec![Statement::Expression {
            expression: Expression::Assign(
                ident("x").boxed(),
                Expression::Infix(ident("x").boxed(), Op::Add, Expression::Number(1).boxed())
                    .boxed(),
            )
        }]
    );
}

#[test]
fn parse_expr_test2() {
    // main()
    let tokens = vec![
        Token::Identifier(String::from("main")),
        Token::LeftParen,
        Token::RightParen,
    ];
    assert_eq!(
        parse(tokens).unwrap(),
        vec![Statement::Expression {
            expression: Expression::Call(ident("main").boxed(), vec![])
        }]
    );
}

#[test]
fn parse_fn_test1() {
    // fn main() {  }
    let tokens = vec![
        Token::Fn,
        Token::Identifier(String::from("main")),
        Token::LeftParen,
        Token::RightParen,
        Token::LeftBrace,
        Token::RightBrace,
    ];
    assert_eq!(
        parse(tokens).unwrap(),
        vec![Statement::FunctionDeclaration {
            name: String::from("main"),
            params: vec![],
            body: vec![],
        }]
    );
}

#[test]
fn parse_fn_test2() {
    // fn main(x, y) {  }
    let tokens = vec![
        Token::Fn,
        Token::Identifier(String::from("main")),
        Token::LeftParen,
        Token::Identifier(String::from("x")),
        Token::Comma,
        Token::Identifier(String::from("y")),
        Token::RightParen,
        Token::LeftBrace,
        Token::RightBrace,
    ];
    assert_eq!(
        parse(tokens).unwrap(),
        vec![Statement::FunctionDeclaration {
            name: String::from("main"),
            params: vec![
                Parameter { name: String::from("x") },
                Parameter { name: String::from("y") },
            ],
            body: vec![],
        }]
    );
}

#[test]
fn parse_if_test1() {
    // if true { let t = 0 } else { }
    let tokens = vec![
        Token::If,
        Token::True,
        Token::LeftBrace,
        Token::Let,
        Token::Identifier(String::from("t")),
        Token::Assign,
        Token::Number(0),
        Token::RightBrace,
        Token::Else,
        Token::LeftBrace,
        Token::RightBrace,
    ];
    assert_eq!(
        parse(tokens).unwrap(),
        vec![Statement::If {
            condition: Expression::Boolean(true),
            then: vec![Statement::Let {
                name: String::from("t"),
                initial: Some(Expression::Number(0)),
            }],
            otherwise: Some(vec![]),
        }]
    );
}

#[test]
fn parse_if_test2() {
    // if x == 1 { }
    let tokens = vec![
        Token::If,
        Token::Identifier(String::from("x")),
        Token::Equals,
        Token::Number(1),
        Token::LeftBrace,
        Token::RightBrace,
    ];
    assert_eq!(
        parse(tokens).unwrap(),
        vec![Statement::If {
            condition: Expression::Infix(
                ident("x").boxed(),
                Op::Equals,
                Expression::Number(1).boxed(),
            ),
            then: vec![],
            otherwise: None,
        }]
    );
}

#[test]
fn parse_if_test3() {
    // if x == 1 && y != 2 { }
    let tokens = vec![
        Token::If,
        Token::Identifier(String::from("x")),
        Token::Equals,
        Token::Number(1),
        Token::And,
        Token::Identifier(String::from("y")),
        Token::NotEquals,
        Token::Number(2),
        Token::LeftBrace,
        Token::RightBrace,
    ];
    assert_eq!(
        parse(tokens).unwrap(),
        vec![Statement::If {
            condition: Expression::Infix(
                Expression::Infix(ident("x").boxed(), Op::Equals, Expression::Number(1).boxed())
                    .boxed(),
                Op::And,
                Expression::Infix(
                    ident("y").boxed(),
                    Op::NotEquals,
                    Expression::Number(2).boxed(),
                )
                .boxed(),
            ),
            then: vec![],
            otherwise: None,
        }]
    );
}

#[test]
fn parse_loop_test1() {
    // loop { }
    let tokens = vec![Token::Loop, Token::LeftBrace, Token::RightBrace];
    assert_eq!(
        parse(tokens).unwrap(),
        vec![Statement::Loop { binding: None, then: vec![] }]
    );
}

#[test]
fn parse_loop_test3() {
    // loop (let y : [1, 2, 3]) { }
    let tokens = vec![
        Token::Loop,
        Token::LeftParen,
        Token::Let,
        Token::Identifier(String::from("y")),
        Token::Colon,
        Token::LeftBracket,
        Token::Number(1),
        Token::Comma,
        Token::Number(2),
        Token::Comma,
        Token::Number(3),
        Token::RightBracket,
        Token::RightParen,
        Token::LeftBrace,
        Token::RightBrace,
    ];
    assert_eq!(
        parse(tokens).unwrap(),
        vec![Statement::Loop {
            binding: Some(LoopBinding {
                value: String::from("y"),
                iterable: Expression::List(vec![
                    Expression::Number(1),
                    Expression::Number(2),
                    Expression::Number(3),
                ]),
            }),
            then: vec![],
        }]
    );
}

#[test]
fn parse_return_test1() {
    // return x
    let tokens = vec![Token::Return, Token::Identifier(String::from("x"))];
    assert_eq!(
        parse(tokens).unwrap(),
        vec![Statement::Return { value: Some(ident("x")) }]
    );
}

#[test]
fn parse_return_test2() {
    // break
    let tokens = vec![Token::Break];
    assert_eq!(parse(tokens).unwrap(), vec![Statement::Break]);
}

#[test]
fn parse_return_without_value() {
    // a bare return before the end marker yields an empty return
    let tokens = vec![Token::Return];
    assert_eq!(parse(tokens).unwrap(), vec![Statement::Return { value: None }]);
}

#[test]
fn return_with_failed_value_consumes_nothing_extra() {
    // "return break": the value parse fails, the cursor is restored, and
    // the break still parses as its own statement
    let tokens = vec![Token::Return, Token::Break];
    assert_eq!(
        parse(tokens).unwrap(),
        vec![Statement::Return { value: None }, Statement::Break]
    );
}

#[test]
fn return_with_half_an_expression_is_an_error() {
    // "return 1 +": the dangling operator surfaces as a typed error
    let tokens = vec![Token::Return, Token::Number(1), Token::Plus];
    assert_eq!(parse(tokens), Err(ParseError::UnexpectedToken(Token::Eof)));
}

#[test]
fn parse_reports_the_unexpected_token() {
    let tokens = vec![Token::Plus];
    assert_eq!(
        parse(tokens),
        Err(ParseError::UnexpectedToken(Token::Plus))
    );
}

#[test]
fn parse_error_names_the_offending_token() {
    // "let 5": the number stands where the declared name belongs
    let tokens = vec![Token::Let, Token::Number(5)];
    assert_eq!(
        parse(tokens),
        Err(ParseError::UnexpectedToken(Token::Number(5)))
    );
}

#[test]
fn call_arguments_parse_in_order() {
    // f(1, 2 + 3)
    let tokens = vec![
        Token::Identifier(String::from("f")),
        Token::LeftParen,
        Token::Number(1),
        Token::Comma,
        Token::Number(2),
        Token::Plus,
        Token::Number(3),
        Token::RightParen,
    ];
    assert_eq!(
        parse(tokens).unwrap(),
        vec![Statement::Expression {
            expression: Expression::Call(
                ident("f").boxed(),
                vec![
                    Expression::Number(1),
                    Expression::Infix(
                        Expression::Number(2).boxed(),
                        Op::Add,
                        Expression::Number(3).boxed(),
                    ),
                ],
            )
        }]
    );
}

#[test]
fn parse_error_messages() {
    assert_eq!(
        ParseError::UnexpectedToken(Token::Plus).message(),
        "Unexpected token."
    );
    assert_eq!(ParseError::Unreachable.message(), "Entered unreachable code.");
}
