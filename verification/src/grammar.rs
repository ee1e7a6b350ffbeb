//! The meaning of the grammar: a definitional parser written as spec
//! functions from a token sequence and a position to the parsed model
//! and the position after it.
//!
//! These functions say, for every token sequence, exactly which tree the
//! parser yields or which token the parse error names; the executable
//! parser is proved equal to them, construct by construct. Termination
//! is by the tokens left to the right of the cursor; a recursive call
//! whose position a subterm computed is guarded by a range check, and
//! the guard's error arm is dead wherever the executable parser — whose
//! successes always consume — drives the recursion.
//!
//! Precedence climbing lives in `spec_parse_climb`: after a leaf, while
//! the next token binds strictly tighter than the floor `prec`, a
//! postfix call form or an infix operator form is folded around the
//! expression parsed so far — hence left associativity — with an infix
//! right-hand side parsed at the operator's own tier, and an assignment
//! right-hand side at the loosest.

use vstd::prelude::*;

use crate::ast::{is_operator_token, spec_op_of, ExpressionV, LoopBindingV, StatementV};
use crate::errors::ParseError;
use crate::token::{spec_kind, spec_level, spec_precedence, Precedence, Token, TokenKind};

verus! {

/// The token at position `p`; the end marker at or past the sequence's
/// end.
pub open spec fn tok_at(tokens: Seq<Token>, p: int) -> Token {
    if 0 <= p < tokens.len() {
        tokens[p]
    } else {
        Token::Eof
    }
}

/// The kind of the token at position `p`.
pub open spec fn kind_at(tokens: Seq<Token>, p: int) -> TokenKind {
    spec_kind(tok_at(tokens, p))
}

/// True when the token kinds that continue an expression as an infix
/// form: every operator token except the prefix-only bang.
pub open spec fn is_infix_token(k: TokenKind) -> bool {
    is_operator_token(k) && k != TokenKind::Bang
}

/// A leaf expression at `pos`: a literal, an identifier, a prefix
/// operator applied to a tighter-bound operand, a parenthesized
/// grouping, or a bracketed list; any other token is the parse error
/// naming it.
pub open spec fn spec_parse_leaf(tokens: Seq<Token>, pos: int) -> Result<
    (ExpressionV, int),
    ParseError,
>
    decreases tokens.len() - pos, 0int,
{
    match tok_at(tokens, pos) {
        Token::String(s) => Ok((ExpressionV::String(s@), pos + 1)),
        Token::Number(n) => Ok((ExpressionV::Number(n as int), pos + 1)),
        Token::True => Ok((ExpressionV::Boolean(true), pos + 1)),
        Token::False => Ok((ExpressionV::Boolean(false), pos + 1)),
        Token::Identifier(s) => Ok((ExpressionV::Identifier(s@), pos + 1)),
        Token::Minus => if 0 <= pos < tokens.len() {
            match spec_parse_expression(tokens, pos + 1, Precedence::Prefix) {
                Err(e) => Err(e),
                Ok((operand, p)) => Ok((
                    ExpressionV::Prefix(crate::ast::Op::Subtract, Box::new(operand)),
                    p,
                )),
            }
        } else {
            Err(ParseError::Unreachable)
        },
        Token::Bang => if 0 <= pos < tokens.len() {
            match spec_parse_expression(tokens, pos + 1, Precedence::Prefix) {
                Err(e) => Err(e),
                Ok((operand, p)) => Ok((
                    ExpressionV::Prefix(crate::ast::Op::Not, Box::new(operand)),
                    p,
                )),
            }
        } else {
            Err(ParseError::Unreachable)
        },
        Token::LeftParen => if 0 <= pos < tokens.len() {
            match spec_parse_expression(tokens, pos + 1, Precedence::Lowest) {
                Err(e) => Err(e),
                Ok((inner, p)) => if kind_at(tokens, p) == TokenKind::RightParen {
                    Ok((inner, p + 1))
                } else {
                    Err(ParseError::UnexpectedToken(tok_at(tokens, p)))
                },
            }
        } else {
            Err(ParseError::Unreachable)
        },
        Token::LeftBracket => if 0 <= pos < tokens.len() {
            match spec_parse_elements(tokens, pos + 1, TokenKind::RightBracket) {
                Err(e) => Err(e),
                Ok((items, p)) => if kind_at(tokens, p) == TokenKind::RightBracket {
                    Ok((ExpressionV::List(items), p + 1))
                } else {
                    Err(ParseError::UnexpectedToken(tok_at(tokens, p)))
                },
            }
        } else {
            Err(ParseError::Unreachable)
        },
        t => Err(ParseError::UnexpectedToken(t)),
    }
}

/// Comma-separated expressions up to (and not including) a token of kind
/// `end`: the element list of a bracketed list or of a call.
pub open spec fn spec_parse_elements(tokens: Seq<Token>, pos: int, end: TokenKind) -> Result<
    (Seq<ExpressionV>, int),
    ParseError,
>
    decreases tokens.len() - pos, 3int,
{
    if kind_at(tokens, pos) == end {
        Ok((Seq::empty(), pos))
    } else {
        match spec_parse_expression(tokens, pos, Precedence::Lowest) {
            Err(e) => Err(e),
            Ok((element, p1)) => {
                let p2 = if kind_at(tokens, p1) == TokenKind::Comma {
                    p1 + 1
                } else {
                    p1
                };
                if pos < p2 <= tokens.len() {
                    match spec_parse_elements(tokens, p2, end) {
                        Err(e) => Err(e),
                        Ok((rest, p3)) => Ok((seq![element] + rest, p3)),
                    }
                } else {
                    Err(ParseError::Unreachable)
                }
            },
        }
    }
}

/// A postfix form continuing `left` at `pos`: a parenthesized,
/// comma-separated argument list folds into a call keeping `left` as the
/// callee; any other token starts no postfix form and consumes nothing.
pub open spec fn spec_parse_postfix(tokens: Seq<Token>, pos: int, left: ExpressionV) -> Result<
    Option<(ExpressionV, int)>,
    ParseError,
>
    decreases tokens.len() - pos, 0int,
{
    if kind_at(tokens, pos) == TokenKind::LeftParen {
        if 0 <= pos < tokens.len() {
            match spec_parse_elements(tokens, pos + 1, TokenKind::RightParen) {
                Err(e) => Err(e),
                Ok((args, p)) => if kind_at(tokens, p) == TokenKind::RightParen {
                    Ok(Some((ExpressionV::Call(Box::new(left), args), p + 1)))
                } else {
                    Err(ParseError::UnexpectedToken(tok_at(tokens, p)))
                },
            }
        } else {
            Err(ParseError::Unreachable)
        }
    } else {
        Ok(None)
    }
}

/// An infix form continuing `left` at `pos`: a binary operator folds
/// into an infix node keeping `left` on the left, its right-hand side
/// parsed at the operator's own tier; the assignment sign folds into an
/// assignment whose right-hand side is parsed at the loosest tier; any
/// other token starts no infix form and consumes nothing.
pub open spec fn spec_parse_infix(tokens: Seq<Token>, pos: int, left: ExpressionV) -> Result<
    Option<(ExpressionV, int)>,
    ParseError,
>
    decreases tokens.len() - pos, 0int,
{
    let k = kind_at(tokens, pos);
    if is_infix_token(k) {
        if 0 <= pos < tokens.len() {
            match spec_parse_expression(tokens, pos + 1, spec_precedence(k)) {
                Err(e) => Err(e),
                Ok((right, p)) => Ok(Some((
                    ExpressionV::Infix(Box::new(left), spec_op_of(k), Box::new(right)),
                    p,
                ))),
            }
        } else {
            Err(ParseError::Unreachable)
        }
    } else if k == TokenKind::Assign {
        if 0 <= pos < tokens.len() {
            match spec_parse_expression(tokens, pos + 1, Precedence::Lowest) {
                Err(e) => Err(e),
                Ok((right, p)) => Ok(Some((
                    ExpressionV::Assign(Box::new(left), Box::new(right)),
                    p,
                ))),
            }
        } else {
            Err(ParseError::Unreachable)
        }
    } else {
        Ok(None)
    }
}

/// The precedence climb: while the token at the cursor binds strictly
/// tighter than the floor `prec`, fold a postfix or infix form around
/// `left` and continue; stop at the end marker, at a looser token, or
/// when no form continues the expression.
pub open spec fn spec_parse_climb(
    tokens: Seq<Token>,
    pos: int,
    prec: Precedence,
    left: ExpressionV,
) -> Result<(ExpressionV, int), ParseError>
    decreases tokens.len() - pos, 1int,
{
    if kind_at(tokens, pos) == TokenKind::Eof || !(spec_level(prec) < spec_level(
        spec_precedence(kind_at(tokens, pos)),
    )) {
        Ok((left, pos))
    } else {
        match spec_parse_postfix(tokens, pos, left) {
            Err(e) => Err(e),
            Ok(Some((folded, p))) => if pos < p <= tokens.len() {
                spec_parse_climb(tokens, p, prec, folded)
            } else {
                Err(ParseError::Unreachable)
            },
            Ok(None) => match spec_parse_infix(tokens, pos, left) {
                Err(e) => Err(e),
                Ok(Some((folded, p))) => if pos < p <= tokens.len() {
                    spec_parse_climb(tokens, p, prec, folded)
                } else {
                    Err(ParseError::Unreachable)
                },
                Ok(None) => Ok((left, pos)),
            },
        }
    }
}

/// An expression at `pos` with minimum binding tier `prec`: a leaf, then
/// the precedence climb.
pub open spec fn spec_parse_expression(tokens: Seq<Token>, pos: int, prec: Precedence) -> Result<
    (ExpressionV, int),
    ParseError,
>
    decreases tokens.len() - pos, 2int,
{
    match spec_parse_leaf(tokens, pos) {
        Err(e) => Err(e),
        Ok((left, p)) => if pos <= p <= tokens.len() {
            spec_parse_climb(tokens, p, prec, left)
        } else {
            Err(ParseError::Unreachable)
        },
    }
}

/// The parameter names of a declaration, up to the closing parenthesis;
/// a comma before a name is consumed.
pub open spec fn spec_parse_params(tokens: Seq<Token>, pos: int) -> Result<
    (Seq<Seq<char>>, int),
    ParseError,
>
    decreases tokens.len() - pos, 0int,
{
    if kind_at(tokens, pos) == TokenKind::RightParen {
        Ok((Seq::empty(), pos))
    } else {
        let q = if kind_at(tokens, pos) == TokenKind::Comma {
            pos + 1
        } else {
            pos
        };
        match tok_at(tokens, q) {
            Token::Identifier(name) => if pos < q + 1 <= tokens.len() {
                match spec_parse_params(tokens, q + 1) {
                    Err(e) => Err(e),
                    Ok((rest, p)) => Ok((seq![name@] + rest, p)),
                }
            } else {
                Err(ParseError::Unreachable)
            },
            t => Err(ParseError::UnexpectedToken(t)),
        }
    }
}

/// A `let` statement at `pos`: the keyword, the declared name, and an
/// optional `=`-led initializer.
pub open spec fn spec_parse_let(tokens: Seq<Token>, pos: int) -> Result<
    (StatementV, int),
    ParseError,
>
    decreases tokens.len() - pos, 3int,
{
    if kind_at(tokens, pos) != TokenKind::Let {
        Err(ParseError::UnexpectedToken(tok_at(tokens, pos)))
    } else {
        match tok_at(tokens, pos + 1) {
            Token::Identifier(name) => if kind_at(tokens, pos + 2) == TokenKind::Assign {
                if 0 <= pos + 3 <= tokens.len() {
                    match spec_parse_expression(tokens, pos + 3, Precedence::Lowest) {
                        Err(e) => Err(e),
                        Ok((initial, p)) => Ok((
                            StatementV::Let { name: name@, initial: Some(initial) },
                            p,
                        )),
                    }
                } else {
                    Err(ParseError::Unreachable)
                }
            } else {
                Ok((StatementV::Let { name: name@, initial: None }, pos + 2))
            },
            t => Err(ParseError::UnexpectedToken(t)),
        }
    }
}

/// A `return` statement at `pos`: the keyword and an attempted value
/// expression; when no value parses, the return is empty and the cursor
/// stands right after the keyword.
pub open spec fn spec_parse_return(tokens: Seq<Token>, pos: int) -> Result<
    (StatementV, int),
    ParseError,
>
    decreases tokens.len() - pos, 3int,
{
    if kind_at(tokens, pos) != TokenKind::Return {
        Err(ParseError::UnexpectedToken(tok_at(tokens, pos)))
    } else if 0 <= pos < tokens.len() {
        match spec_parse_expression(tokens, pos + 1, Precedence::Lowest) {
            Ok((value, p)) => Ok((StatementV::Return { value: Some(value) }, p)),
            Err(_) => Ok((StatementV::Return { value: None }, pos + 1)),
        }
    } else {
        Err(ParseError::Unreachable)
    }
}

/// A brace-delimited block at `pos`.
pub open spec fn spec_parse_block(tokens: Seq<Token>, pos: int) -> Result<
    (Seq<StatementV>, int),
    ParseError,
>
    decreases tokens.len() - pos, 3int,
{
    if kind_at(tokens, pos) != TokenKind::LeftBrace {
        Err(ParseError::UnexpectedToken(tok_at(tokens, pos)))
    } else if 0 <= pos < tokens.len() {
        match spec_parse_block_items(tokens, pos + 1) {
            Err(e) => Err(e),
            Ok((statements, p)) => if kind_at(tokens, p) == TokenKind::RightBrace {
                Ok((statements, p + 1))
            } else {
                Err(ParseError::UnexpectedToken(tok_at(tokens, p)))
            },
        }
    } else {
        Err(ParseError::Unreachable)
    }
}

/// The statements of a block, up to (and not including) the closing
/// brace.
pub open spec fn spec_parse_block_items(tokens: Seq<Token>, pos: int) -> Result<
    (Seq<StatementV>, int),
    ParseError,
>
    decreases tokens.len() - pos, 7int,
{
    if kind_at(tokens, pos) == TokenKind::RightBrace {
        Ok((Seq::empty(), pos))
    } else {
        match spec_parse_statement(tokens, pos) {
            Err(e) => Err(e),
            Ok((statement, p)) => if pos < p <= tokens.len() {
                match spec_parse_block_items(tokens, p) {
                    Err(e) => Err(e),
                    Ok((rest, p2)) => Ok((seq![statement] + rest, p2)),
                }
            } else {
                Err(ParseError::Unreachable)
            },
        }
    }
}

/// An `if` statement at `pos`: the condition at the statement tier, the
/// `then` block, and an optional `else` block.
pub open spec fn spec_parse_if(tokens: Seq<Token>, pos: int) -> Result<
    (StatementV, int),
    ParseError,
>
    decreases tokens.len() - pos, 4int,
{
    if kind_at(tokens, pos) != TokenKind::If {
        Err(ParseError::UnexpectedToken(tok_at(tokens, pos)))
    } else if 0 <= pos < tokens.len() {
        match spec_parse_expression(tokens, pos + 1, Precedence::Statement) {
            Err(e) => Err(e),
            Ok((condition, p1)) => if pos < p1 <= tokens.len() {
                match spec_parse_block(tokens, p1) {
                    Err(e) => Err(e),
                    Ok((then, p2)) => if kind_at(tokens, p2) == TokenKind::Else {
                        if pos < p2 + 1 <= tokens.len() {
                            match spec_parse_block(tokens, p2 + 1) {
                                Err(e) => Err(e),
                                Ok((otherwise, p3)) => Ok((
                                    StatementV::If { condition, then, otherwise: Some(otherwise) },
                                    p3,
                                )),
                            }
                        } else {
                            Err(ParseError::Unreachable)
                        }
                    } else {
                        Ok((StatementV::If { condition, then, otherwise: None }, p2))
                    },
                }
            } else {
                Err(ParseError::Unreachable)
            },
        }
    } else {
        Err(ParseError::Unreachable)
    }
}

/// A `loop` statement at `pos`: an optional `(let name : iterable)`
/// header, then the body block.
pub open spec fn spec_parse_loop(tokens: Seq<Token>, pos: int) -> Result<
    (StatementV, int),
    ParseError,
>
    decreases tokens.len() - pos, 4int,
{
    if kind_at(tokens, pos) != TokenKind::Loop {
        Err(ParseError::UnexpectedToken(tok_at(tokens, pos)))
    } else if kind_at(tokens, pos + 1) == TokenKind::LeftParen {
        if kind_at(tokens, pos + 2) != TokenKind::Let {
            Err(ParseError::UnexpectedToken(tok_at(tokens, pos + 2)))
        } else {
            match tok_at(tokens, pos + 3) {
                Token::Identifier(name) => if kind_at(tokens, pos + 4) != TokenKind::Colon {
                    Err(ParseError::UnexpectedToken(tok_at(tokens, pos + 4)))
                } else if 0 <= pos + 5 <= tokens.len() {
                    match spec_parse_expression(tokens, pos + 5, Precedence::Statement) {
                        Err(e) => Err(e),
                        Ok((iterable, p1)) => if kind_at(tokens, p1) != TokenKind::RightParen {
                            Err(ParseError::UnexpectedToken(tok_at(tokens, p1)))
                        } else if pos < p1 + 1 <= tokens.len() {
                            match spec_parse_block(tokens, p1 + 1) {
                                Err(e) => Err(e),
                                Ok((then, p2)) => Ok((
                                    StatementV::Loop {
                                        binding: Some(
                                            LoopBindingV { value: name@, iterable },
                                        ),
                                        then,
                                    },
                                    p2,
                                )),
                            }
                        } else {
                            Err(ParseError::Unreachable)
                        },
                    }
                } else {
                    Err(ParseError::Unreachable)
                },
                t => Err(ParseError::UnexpectedToken(t)),
            }
        }
    } else if 0 <= pos < tokens.len() {
        match spec_parse_block(tokens, pos + 1) {
            Err(e) => Err(e),
            Ok((then, p)) => Ok((StatementV::Loop { binding: None, then }, p)),
        }
    } else {
        Err(ParseError::Unreachable)
    }
}

/// A function declaration at `pos`: the keyword, the name, the
/// parenthesized parameter names, and the body block.
pub open spec fn spec_parse_fn(tokens: Seq<Token>, pos: int) -> Result<
    (StatementV, int),
    ParseError,
>
    decreases tokens.len() - pos, 4int,
{
    if kind_at(tokens, pos) != TokenKind::Fn {
        Err(ParseError::UnexpectedToken(tok_at(tokens, pos)))
    } else {
        match tok_at(tokens, pos + 1) {
            Token::Identifier(name) => if kind_at(tokens, pos + 2) != TokenKind::LeftParen {
                Err(ParseError::UnexpectedToken(tok_at(tokens, pos + 2)))
            } else if 0 <= pos + 3 <= tokens.len() {
                match spec_parse_params(tokens, pos + 3) {
                    Err(e) => Err(e),
                    Ok((params, p1)) => if kind_at(tokens, p1) != TokenKind::RightParen {
                        Err(ParseError::UnexpectedToken(tok_at(tokens, p1)))
                    } else if pos < p1 + 1 <= tokens.len() {
                        match spec_parse_block(tokens, p1 + 1) {
                            Err(e) => Err(e),
                            Ok((body, p2)) => Ok((
                                StatementV::FunctionDeclaration { name: name@, params, body },
                                p2,
                            )),
                        }
                    } else {
                        Err(ParseError::Unreachable)
                    },
                }
            } else {
                Err(ParseError::Unreachable)
            },
            t => Err(ParseError::UnexpectedToken(t)),
        }
    }
}

/// One statement at `pos`: the current token decides among the
/// declaration and control forms, a lone `break`, or a bare expression
/// statement.
pub open spec fn spec_parse_statement(tokens: Seq<Token>, pos: int) -> Result<
    (StatementV, int),
    ParseError,
>
    decreases tokens.len() - pos, 6int,
{
    match kind_at(tokens, pos) {
        TokenKind::Fn => spec_parse_fn(tokens, pos),
        TokenKind::Let => spec_parse_let(tokens, pos),
        TokenKind::If => spec_parse_if(tokens, pos),
        TokenKind::Loop => spec_parse_loop(tokens, pos),
        TokenKind::Return => spec_parse_return(tokens, pos),
        TokenKind::Break => Ok((StatementV::Break, pos + 1)),
        _ => match spec_parse_expression(tokens, pos, Precedence::Lowest) {
            Err(e) => Err(e),
            Ok((expression, p)) => Ok((StatementV::Expression { expression }, p)),
        },
    }
}

/// The statements of a whole program, up to the end marker: the only
/// valid point at which statement iteration stops without an error.
pub open spec fn spec_parse_items(tokens: Seq<Token>, pos: int) -> Result<
    Seq<StatementV>,
    ParseError,
>
    decreases tokens.len() - pos, 8int,
{
    if kind_at(tokens, pos) == TokenKind::Eof {
        Ok(Seq::empty())
    } else {
        match spec_parse_statement(tokens, pos) {
            Err(e) => Err(e),
            Ok((statement, p)) => if pos < p <= tokens.len() {
                match spec_parse_items(tokens, p) {
                    Err(e) => Err(e),
                    Ok(rest) => Ok(seq![statement] + rest),
                }
            } else {
                Err(ParseError::Unreachable)
            },
        }
    }
}

/// A whole program: the token sequence parsed from its start.
pub open spec fn spec_parse_program(tokens: Seq<Token>) -> Result<Seq<StatementV>, ParseError> {
    spec_parse_items(tokens, 0)
}

} // verus!
