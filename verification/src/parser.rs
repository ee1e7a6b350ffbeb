//! The recursive-descent, precedence-climbing parser: it consumes the
//! token sequence left to right with one token of lookahead and produces
//! one statement at a time until the end marker, or fails with a parse
//! error naming the offending token.
//!
//! Every method is proved equal to the definitional grammar in
//! `grammar`: it returns the tree and the cursor position — or the
//! error — that the spec functions compute for its starting position.
//! The cursor-discipline clauses (tokens never change, the position
//! never moves backwards, success consumes at least one token) carry
//! the termination proofs and rule out the grammar's guard arms.

use vstd::prelude::*;

use crate::ast::{block_view, exprs_view, lemma_block_view, lemma_exprs_view, params_view,
    Expression, ExpressionV, Identifier, Op, Parameter, Statement, StatementV};
use crate::errors::ParseError;
use crate::grammar::{kind_at, spec_parse_block, spec_parse_block_items, spec_parse_climb,
    spec_parse_elements, spec_parse_expression, spec_parse_fn, spec_parse_if, spec_parse_infix,
    spec_parse_items, spec_parse_leaf, spec_parse_let, spec_parse_loop, spec_parse_params,
    spec_parse_postfix, spec_parse_program, spec_parse_return, spec_parse_statement, tok_at};
use crate::token::{spec_kind, Precedence, Token, TokenKind};

verus! {

/// What an expression parse returned and where it left the cursor
/// matches what the grammar computes: same error, or same model and
/// same end position.
pub open spec fn expr_matches(
    s: Result<(ExpressionV, int), ParseError>,
    r: Result<Expression, ParseError>,
    endpos: int,
) -> bool {
    match r {
        Ok(e) => s == Ok::<(ExpressionV, int), ParseError>((e@, endpos)),
        Err(e) => s == Err::<(ExpressionV, int), ParseError>(e),
    }
}

/// What a statement parse returned matches what the grammar computes.
pub open spec fn stmt_matches(
    s: Result<(StatementV, int), ParseError>,
    r: Result<Statement, ParseError>,
    endpos: int,
) -> bool {
    match r {
        Ok(st) => s == Ok::<(StatementV, int), ParseError>((st@, endpos)),
        Err(e) => s == Err::<(StatementV, int), ParseError>(e),
    }
}

/// What a block parse returned matches what the grammar computes.
pub open spec fn block_matches(
    s: Result<(Seq<StatementV>, int), ParseError>,
    r: Result<Vec<Statement>, ParseError>,
    endpos: int,
) -> bool {
    match r {
        Ok(b) => s == Ok::<(Seq<StatementV>, int), ParseError>((block_view(b@), endpos)),
        Err(e) => s == Err::<(Seq<StatementV>, int), ParseError>(e),
    }
}

/// What a postfix or infix fold returned matches what the grammar
/// computes: declined with nothing consumed, or folded to the same model
/// at the same end position, or the same error.
pub open spec fn fold_matches(
    s: Result<Option<(ExpressionV, int)>, ParseError>,
    r: Result<Option<Expression>, ParseError>,
    endpos: int,
) -> bool {
    match r {
        Ok(Some(e)) => s == Ok::<Option<(ExpressionV, int)>, ParseError>(Some((e@, endpos))),
        Ok(None) => s == Ok::<Option<(ExpressionV, int)>, ParseError>(None),
        Err(e) => s == Err::<Option<(ExpressionV, int)>, ParseError>(e),
    }
}

/// Parses a whole program: statements in order until the end marker —
/// the only point at which iteration stops without an error — exactly as
/// `spec_parse_program` computes, the parse error naming the offending
/// token.
pub fn parse(tokens: Vec<Token>) -> (r: Result<Vec<Statement>, ParseError>)
    ensures
        ({
            let s = spec_parse_program(tokens@);
            match r {
                Ok(program) => s == Ok::<Seq<StatementV>, ParseError>(block_view(program@)),
                Err(e) => s == Err::<Seq<StatementV>, ParseError>(e),
            }
        }),
{
    let ghost toks = tokens@;
    let mut parser = Parser::new(tokens);
    let mut program: Vec<Statement> = Vec::new();
    proof {
        assert(block_view(program@) =~= Seq::<StatementV>::empty());
    }
    loop
        invariant
            parser.wf(),
            toks == tokens@,
            parser.tokens@ == toks,
            spec_parse_items(toks, 0) == (match spec_parse_items(toks, parser.pos as int) {
                Ok(rest) => Ok::<Seq<StatementV>, ParseError>(block_view(program@) + rest),
                Err(e) => Err::<Seq<StatementV>, ParseError>(e),
            }),
        decreases parser.tokens@.len() - parser.pos,
    {
        let ghost pos0 = parser.pos as int;
        let ghost prog0 = program@;
        match parser.next() {
            Err(e) => {
                return Err(e);
            },
            Ok(None) => {
                proof {
                    assert(spec_parse_items(toks, pos0) == Ok::<Seq<StatementV>, ParseError>(
                        Seq::empty(),
                    ));
                    assert(block_view(program@) + Seq::<StatementV>::empty() =~= block_view(
                        program@,
                    ));
                }
                return Ok(program);
            },
            Ok(Some(statement)) => {
                let ghost stv = statement@;
                program.push(statement);
                proof {
                    assert(program@.drop_last() =~= prog0);
                    assert(block_view(program@) =~= block_view(prog0).push(stv));
                    assert forall|rest: Seq<StatementV>|
                        block_view(prog0) + (seq![stv] + rest) =~= block_view(program@)
                            + rest by {}
                }
            },
        }
    }
}

/// The parser's cursor over the token sequence: `pos` is the index of
/// the current token; everything at or past the sequence's end reads as
/// the end marker.
pub struct Parser {
    pub tokens: Vec<Token>,
    pub pos: usize,
}

impl Parser {
    /// The cursor never passes the end of the sequence.
    pub open spec fn wf(self) -> bool {
        self.pos <= self.tokens@.len()
    }

    /// How many tokens are left to consume.
    pub open spec fn remaining(self) -> int {
        self.tokens@.len() - self.pos
    }

    /// A parser at the first token of `tokens`.
    pub fn new(tokens: Vec<Token>) -> (r: Self)
        ensures
            r.wf(),
            r.tokens == tokens,
            r.pos == 0,
    {
        Parser { tokens, pos: 0 }
    }

    /// The kind of the current token; the end marker once the sequence
    /// is exhausted.
    fn current_kind(&self) -> (k: TokenKind)
        requires
            self.wf(),
        ensures
            k == kind_at(self.tokens@, self.pos as int),
    {
        if self.pos < self.tokens.len() {
            self.tokens[self.pos].kind()
        } else {
            TokenKind::Eof
        }
    }

    /// A copy of the current token; the end marker once the sequence is
    /// exhausted.
    fn current(&self) -> (t: Token)
        requires
            self.wf(),
        ensures
            t == tok_at(self.tokens@, self.pos as int),
    {
        if self.pos < self.tokens.len() {
            self.tokens[self.pos].duplicate()
        } else {
            Token::Eof
        }
    }

    /// True when the current token has kind `kind`.
    fn current_is(&self, kind: TokenKind) -> (r: bool)
        requires
            self.wf(),
        ensures
            r == (kind == kind_at(self.tokens@, self.pos as int)),
    {
        self.current_kind() == kind
    }

    /// Steps past the current token.
    fn read(&mut self)
        requires
            old(self).wf(),
        ensures
            final(self).wf(),
            final(self).tokens == old(self).tokens,
            old(self).pos < old(self).tokens@.len() ==> final(self).pos == old(self).pos + 1,
            old(self).pos == old(self).tokens@.len() ==> final(self).pos == old(self).pos,
    {
        if self.pos < self.tokens.len() {
            self.pos = self.pos + 1;
        }
    }

    /// The current token when it has kind `kind`; the unexpected-token
    /// error naming the current token otherwise. Consumes nothing.
    fn expect_token(&mut self, kind: TokenKind) -> (r: Result<Token, ParseError>)
        requires
            old(self).wf(),
        ensures
            final(self).wf(),
            final(self).tokens == old(self).tokens,
            final(self).pos == old(self).pos,
            r matches Ok(t) ==> old(self).pos < old(self).tokens@.len() && t == old(
                self,
            ).tokens@[old(self).pos as int] && spec_kind(t) == kind,
            (old(self).pos < old(self).tokens@.len() && spec_kind(
                old(self).tokens@[old(self).pos as int],
            ) == kind) ==> r is Ok,
            r matches Err(e) ==> e == ParseError::UnexpectedToken(
                tok_at(old(self).tokens@, old(self).pos as int),
            ),
    {
        if self.current_is(kind) {
            if kind == TokenKind::Eof && self.pos == self.tokens.len() {
                return Err(ParseError::UnexpectedToken(Token::Eof));
            }
            Ok(self.current())
        } else {
            Err(ParseError::UnexpectedToken(self.current()))
        }
    }

    /// The current token when it has kind `kind`, consumed; the
    /// unexpected-token error naming the current token otherwise.
    fn expect_token_and_read(&mut self, kind: TokenKind) -> (r: Result<Token, ParseError>)
        requires
            old(self).wf(),
        ensures
            final(self).wf(),
            final(self).tokens == old(self).tokens,
            old(self).pos <= final(self).pos,
            r is Ok ==> final(self).pos == old(self).pos + 1,
            r matches Ok(t) ==> old(self).pos < old(self).tokens@.len() && t == old(
                self,
            ).tokens@[old(self).pos as int] && spec_kind(t) == kind,
            (old(self).pos < old(self).tokens@.len() && spec_kind(
                old(self).tokens@[old(self).pos as int],
            ) == kind) ==> r is Ok,
            r matches Err(e) ==> final(self).pos == old(self).pos && e
                == ParseError::UnexpectedToken(tok_at(old(self).tokens@, old(self).pos as int)),
    {
        let result = match self.expect_token(kind) {
            Ok(t) => t,
            Err(e) => {
                return Err(e);
            },
        };
        self.read();
        Ok(result)
    }

    /// The name of the current identifier token, consumed; the
    /// unexpected-token error naming the current token otherwise.
    fn expect_identifier_and_read(&mut self) -> (r: Result<Identifier, ParseError>)
        requires
            old(self).wf(),
        ensures
            final(self).wf(),
            final(self).tokens == old(self).tokens,
            old(self).pos <= final(self).pos,
            r matches Ok(name) ==> final(self).pos == old(self).pos + 1 && old(self).pos < old(
                self,
            ).tokens@.len() && old(self).tokens@[old(self).pos as int] == Token::Identifier(name),
            (old(self).pos < old(self).tokens@.len() && spec_kind(
                old(self).tokens@[old(self).pos as int],
            ) == TokenKind::Identifier) ==> r is Ok,
            r matches Err(e) ==> final(self).pos == old(self).pos && e
                == ParseError::UnexpectedToken(tok_at(old(self).tokens@, old(self).pos as int)),
    {
        match self.expect_token_and_read(TokenKind::Identifier) {
            Ok(Token::Identifier(name)) => Ok(name),
            Ok(_) => {
                proof {
                    assert(false);
                }
                Err(ParseError::Unreachable)
            },
            Err(e) => Err(e),
        }
    }

    /// The next statement of the program, or `None` at — and only at —
    /// the end marker.
    pub fn next(&mut self) -> (r: Result<Option<Statement>, ParseError>)
        requires
            old(self).wf(),
        ensures
            final(self).wf(),
            final(self).tokens == old(self).tokens,
            old(self).pos <= final(self).pos,
            r matches Ok(Some(st)) ==> old(self).pos < final(self).pos && kind_at(
                old(self).tokens@,
                old(self).pos as int,
            ) != TokenKind::Eof && spec_parse_statement(old(self).tokens@, old(self).pos as int)
                == Ok::<(StatementV, int), ParseError>((st@, final(self).pos as int)),
            r matches Ok(None) ==> kind_at(old(self).tokens@, old(self).pos as int)
                == TokenKind::Eof && final(self).pos == old(self).pos,
            r matches Err(e) ==> kind_at(old(self).tokens@, old(self).pos as int)
                != TokenKind::Eof && spec_parse_statement(old(self).tokens@, old(self).pos as int)
                == Err::<(StatementV, int), ParseError>(e),
        decreases old(self).remaining(), 8int,
    {
        if self.current_is(TokenKind::Eof) {
            return Ok(None);
        }
        match self.parse_statement() {
            Ok(statement) => Ok(Some(statement)),
            Err(e) => Err(e),
        }
    }

    /// Dispatches on the current token: a declaration, a control
    /// statement, a lone `break`, or a bare expression statement —
    /// exactly as `spec_parse_statement` computes.
    fn parse_statement(&mut self) -> (r: Result<Statement, ParseError>)
        requires
            old(self).wf(),
        ensures
            final(self).wf(),
            final(self).tokens == old(self).tokens,
            old(self).pos <= final(self).pos,
            r is Ok ==> old(self).pos < final(self).pos,
            stmt_matches(
                spec_parse_statement(old(self).tokens@, old(self).pos as int),
                r,
                final(self).pos as int,
            ),
        decreases old(self).remaining(), 6int,
    {
        match self.current_kind() {
            TokenKind::Fn => self.parse_fn(),
            TokenKind::Let => self.parse_let(),
            TokenKind::If => self.parse_if(),
            TokenKind::Loop => self.parse_loop(),
            TokenKind::Return => self.parse_return(),
            TokenKind::Break => {
                match self.expect_token_and_read(TokenKind::Break) {
                    Ok(_) => Ok(Statement::Break),
                    Err(e) => Err(e),
                }
            },
            _ => {
                match self.parse_expression(Precedence::Lowest) {
                    Ok(expression) => Ok(Statement::Expression { expression }),
                    Err(e) => Err(e),
                }
            },
        }
    }

    /// A `return` statement, as `spec_parse_return` computes: when no
    /// value expression parses, the return is empty and the cursor is
    /// restored to just after the keyword.
    fn parse_return(&mut self) -> (r: Result<Statement, ParseError>)
        requires
            old(self).wf(),
        ensures
            final(self).wf(),
            final(self).tokens == old(self).tokens,
            old(self).pos <= final(self).pos,
            r is Ok ==> old(self).pos < final(self).pos,
            stmt_matches(
                spec_parse_return(old(self).tokens@, old(self).pos as int),
                r,
                final(self).pos as int,
            ),
        decreases old(self).remaining(), 3int,
    {
        match self.expect_token_and_read(TokenKind::Return) {
            Ok(_) => {},
            Err(e) => {
                return Err(e);
            },
        }
        let saved = self.pos;
        let value = match self.parse_expression(Precedence::Lowest) {
            Ok(val) => Some(val),
            Err(_e) => {
                self.pos = saved;
                None
            },
        };
        Ok(Statement::Return { value })
    }

    /// A `loop` statement, with an optional `(let name : iterable)`
    /// header, as `spec_parse_loop` computes.
    fn parse_loop(&mut self) -> (r: Result<Statement, ParseError>)
        requires
            old(self).wf(),
        ensures
            final(self).wf(),
            final(self).tokens == old(self).tokens,
            old(self).pos <= final(self).pos,
            r is Ok ==> old(self).pos < final(self).pos,
            stmt_matches(
                spec_parse_loop(old(self).tokens@, old(self).pos as int),
                r,
                final(self).pos as int,
            ),
        decreases old(self).remaining(), 4int,
    {
        match self.expect_token_and_read(TokenKind::Loop) {
            Ok(_) => {},
            Err(e) => {
                return Err(e);
            },
        }
        let binding = if self.current_is(TokenKind::LeftParen) {
            match self.expect_token_and_read(TokenKind::LeftParen) {
                Ok(_) => {},
                Err(e) => {
                    return Err(e);
                },
            }
            match self.expect_token_and_read(TokenKind::Let) {
                Ok(_) => {},
                Err(e) => {
                    return Err(e);
                },
            }
            let value = match self.expect_identifier_and_read() {
                Ok(name) => name,
                Err(e) => {
                    return Err(e);
                },
            };
            match self.expect_token_and_read(TokenKind::Colon) {
                Ok(_) => {},
                Err(e) => {
                    return Err(e);
                },
            }
            let iterable = match self.parse_expression(Precedence::Statement) {
                Ok(expr) => expr,
                Err(e) => {
                    return Err(e);
                },
            };
            match self.expect_token_and_read(TokenKind::RightParen) {
                Ok(_) => {},
                Err(e) => {
                    return Err(e);
                },
            }
            Some(crate::ast::LoopBinding { value, iterable })
        } else {
            None
        };
        let then = match self.parse_block() {
            Ok(block) => block,
            Err(e) => {
                return Err(e);
            },
        };
        Ok(Statement::Loop { binding, then })
    }

    /// An `if` statement with its condition, `then` block and optional
    /// `else` block, as `spec_parse_if` computes.
    fn parse_if(&mut self) -> (r: Result<Statement, ParseError>)
        requires
            old(self).wf(),
        ensures
            final(self).wf(),
            final(self).tokens == old(self).tokens,
            old(self).pos <= final(self).pos,
            r is Ok ==> old(self).pos < final(self).pos,
            stmt_matches(
                spec_parse_if(old(self).tokens@, old(self).pos as int),
                r,
                final(self).pos as int,
            ),
        decreases old(self).remaining(), 4int,
    {
        match self.expect_token_and_read(TokenKind::If) {
            Ok(_) => {},
            Err(e) => {
                return Err(e);
            },
        }
        let condition = match self.parse_expression(Precedence::Statement) {
            Ok(expr) => expr,
            Err(e) => {
                return Err(e);
            },
        };
        let then = match self.parse_block() {
            Ok(block) => block,
            Err(e) => {
                return Err(e);
            },
        };
        let otherwise = if self.current_is(TokenKind::Else) {
            match self.expect_token_and_read(TokenKind::Else) {
                Ok(_) => {},
                Err(e) => {
                    return Err(e);
                },
            }
            match self.parse_block() {
                Ok(block) => Some(block),
                Err(e) => {
                    return Err(e);
                },
            }
        } else {
            None
        };
        Ok(Statement::If { condition, then, otherwise })
    }

    /// A `let` declaration with an optional initializer, as
    /// `spec_parse_let` computes.
    fn parse_let(&mut self) -> (r: Result<Statement, ParseError>)
        requires
            old(self).wf(),
        ensures
            final(self).wf(),
            final(self).tokens == old(self).tokens,
            old(self).pos <= final(self).pos,
            r is Ok ==> old(self).pos < final(self).pos,
            stmt_matches(
                spec_parse_let(old(self).tokens@, old(self).pos as int),
                r,
                final(self).pos as int,
            ),
        decreases old(self).remaining(), 3int,
    {
        match self.expect_token_and_read(TokenKind::Let) {
            Ok(_) => {},
            Err(e) => {
                return Err(e);
            },
        }
        let name = match self.expect_identifier_and_read() {
            Ok(name) => name,
            Err(e) => {
                return Err(e);
            },
        };
        let initial = if self.current_is(TokenKind::Assign) {
            match self.expect_token_and_read(TokenKind::Assign) {
                Ok(_) => {},
                Err(e) => {
                    return Err(e);
                },
            }
            match self.parse_expression(Precedence::Lowest) {
                Ok(expr) => Some(expr),
                Err(e) => {
                    return Err(e);
                },
            }
        } else {
            None
        };
        Ok(Statement::Let { name, initial })
    }

    /// A function declaration: name, parenthesized parameter names, and
    /// a brace-delimited body, as `spec_parse_fn` computes.
    fn parse_fn(&mut self) -> (r: Result<Statement, ParseError>)
        requires
            old(self).wf(),
        ensures
            final(self).wf(),
            final(self).tokens == old(self).tokens,
            old(self).pos <= final(self).pos,
            r is Ok ==> old(self).pos < final(self).pos,
            stmt_matches(
                spec_parse_fn(old(self).tokens@, old(self).pos as int),
                r,
                final(self).pos as int,
            ),
        decreases old(self).remaining(), 4int,
    {
        let ghost toks = old(self).tokens@;
        match self.expect_token_and_read(TokenKind::Fn) {
            Ok(_) => {},
            Err(e) => {
                return Err(e);
            },
        }
        let name = match self.expect_identifier_and_read() {
            Ok(name) => name,
            Err(e) => {
                return Err(e);
            },
        };
        match self.expect_token_and_read(TokenKind::LeftParen) {
            Ok(_) => {},
            Err(e) => {
                return Err(e);
            },
        }
        let ghost pstart = self.pos as int;
        let mut params: Vec<Parameter> = Vec::new();
        proof {
            assert(params_view(params@) =~= Seq::<Seq<char>>::empty());
        }
        while !self.current_is(TokenKind::RightParen)
            invariant
                self.wf(),
                self.tokens == old(self).tokens,
                toks == self.tokens@,
                old(self).pos as int + 3 == pstart,
                pstart <= self.pos as int,
                pstart <= toks.len(),
                kind_at(toks, old(self).pos as int) == TokenKind::Fn,
                tok_at(toks, old(self).pos as int + 1) == Token::Identifier(name),
                kind_at(toks, old(self).pos as int + 2) == TokenKind::LeftParen,
                spec_parse_params(toks, pstart) == (match spec_parse_params(
                    toks,
                    self.pos as int,
                ) {
                    Ok((rest, p)) => Ok::<(Seq<Seq<char>>, int), ParseError>(
                        (params_view(params@) + rest, p),
                    ),
                    Err(e) => Err::<(Seq<Seq<char>>, int), ParseError>(e),
                }),
            decreases self.remaining(),
        {
            let ghost loop_pos = self.pos as int;
            let ghost old_params = params@;
            if self.current_is(TokenKind::Comma) {
                match self.expect_token_and_read(TokenKind::Comma) {
                    Ok(_) => {},
                    Err(e) => {
                        return Err(e);
                    },
                }
            }
            let param = match self.expect_identifier_and_read() {
                Ok(name) => name,
                Err(e) => {
                    return Err(e);
                },
            };
            let ghost pv = param@;
            params.push(Parameter { name: param });
            proof {
                assert(params_view(params@) =~= params_view(old_params).push(pv));
                assert forall|rest: Seq<Seq<char>>|
                    params_view(old_params) + (seq![pv] + rest) =~= params_view(params@)
                        + rest by {}
            }
        }
        proof {
            assert(spec_parse_params(toks, self.pos as int) == Ok::<
                (Seq<Seq<char>>, int),
                ParseError,
            >((Seq::empty(), self.pos as int)));
            assert(params_view(params@) + Seq::<Seq<char>>::empty() =~= params_view(params@));
        }
        match self.expect_token_and_read(TokenKind::RightParen) {
            Ok(_) => {},
            Err(e) => {
                return Err(e);
            },
        }
        let body = match self.parse_block() {
            Ok(block) => block,
            Err(e) => {
                return Err(e);
            },
        };
        Ok(Statement::FunctionDeclaration { name, params, body })
    }

    /// A brace-delimited block of statements, as `spec_parse_block`
    /// computes.
    fn parse_block(&mut self) -> (r: Result<Vec<Statement>, ParseError>)
        requires
            old(self).wf(),
        ensures
            final(self).wf(),
            final(self).tokens == old(self).tokens,
            old(self).pos <= final(self).pos,
            r is Ok ==> old(self).pos < final(self).pos,
            block_matches(
                spec_parse_block(old(self).tokens@, old(self).pos as int),
                r,
                final(self).pos as int,
            ),
        decreases old(self).remaining(), 3int,
    {
        let ghost toks = old(self).tokens@;
        match self.expect_token_and_read(TokenKind::LeftBrace) {
            Ok(_) => {},
            Err(e) => {
                return Err(e);
            },
        }
        let ghost bstart = self.pos as int;
        let mut block: Vec<Statement> = Vec::new();
        proof {
            assert(block_view(block@) =~= Seq::<StatementV>::empty());
        }
        while !self.current_is(TokenKind::RightBrace)
            invariant
                self.wf(),
                self.tokens == old(self).tokens,
                toks == self.tokens@,
                old(self).pos as int + 1 == bstart,
                bstart <= self.pos as int,
                kind_at(toks, old(self).pos as int) == TokenKind::LeftBrace,
                old(self).pos < toks.len(),
                spec_parse_block_items(toks, bstart) == (match spec_parse_block_items(
                    toks,
                    self.pos as int,
                ) {
                    Ok((rest, p)) => Ok::<(Seq<StatementV>, int), ParseError>(
                        (block_view(block@) + rest, p),
                    ),
                    Err(e) => Err::<(Seq<StatementV>, int), ParseError>(e),
                }),
            decreases self.remaining(),
        {
            let ghost old_block = block@;
            let statement = match self.parse_statement() {
                Ok(statement) => statement,
                Err(e) => {
                    return Err(e);
                },
            };
            let ghost stv = statement@;
            block.push(statement);
            proof {
                assert(block@.drop_last() =~= old_block);
                assert(block_view(block@) =~= block_view(old_block).push(stv));
                assert forall|rest: Seq<StatementV>|
                    block_view(old_block) + (seq![stv] + rest) =~= block_view(block@) + rest by {}
            }
        }
        proof {
            assert(spec_parse_block_items(toks, self.pos as int) == Ok::<
                (Seq<StatementV>, int),
                ParseError,
            >((Seq::empty(), self.pos as int)));
            assert(block_view(block@) + Seq::<StatementV>::empty() =~= block_view(block@));
        }
        match self.expect_token_and_read(TokenKind::RightBrace) {
            Ok(_) => {},
            Err(e) => {
                return Err(e);
            },
        }
        Ok(block)
    }

    /// An expression parsed by precedence climbing, as
    /// `spec_parse_expression` computes: a leaf form first, then — while
    /// the next token binds strictly tighter than `precedence` — postfix
    /// call forms and infix operator forms folded in, left
    /// associatively.
    fn parse_expression(&mut self, precedence: Precedence) -> (r: Result<Expression, ParseError>)
        requires
            old(self).wf(),
        ensures
            final(self).wf(),
            final(self).tokens == old(self).tokens,
            old(self).pos <= final(self).pos,
            r is Ok ==> old(self).pos < final(self).pos,
            expr_matches(
                spec_parse_expression(old(self).tokens@, old(self).pos as int, precedence),
                r,
                final(self).pos as int,
            ),
        decreases old(self).remaining(), 2int,
    {
        let ghost toks = old(self).tokens@;
        let ghost pos0 = old(self).pos as int;
        let mut left = match self.parse_leaf() {
            Ok(expr) => expr,
            Err(e) => {
                return Err(e);
            },
        };
        let ghost pleaf = self.pos as int;
        let ghost leafv = left@;
        while !self.current_is(TokenKind::Eof) && precedence.binds_less_than(
            Precedence::of_kind(self.current_kind()),
        )
            invariant
                self.wf(),
                self.tokens == old(self).tokens,
                toks == self.tokens@,
                pos0 == old(self).pos as int,
                pos0 < pleaf <= self.pos as int,
                pleaf <= toks.len(),
                spec_parse_leaf(toks, pos0) == Ok::<(ExpressionV, int), ParseError>(
                    (leafv, pleaf),
                ),
                spec_parse_climb(toks, pleaf, precedence, leafv) == spec_parse_climb(
                    toks,
                    self.pos as int,
                    precedence,
                    left@,
                ),
            decreases self.remaining(),
        {
            let ghost cur = self.pos as int;
            let ghost leftv = left@;
            proof {
                assert(spec_parse_expression(toks, pos0, precedence) == spec_parse_climb(
                    toks,
                    pleaf,
                    precedence,
                    leafv,
                ));
            }
            match self.parse_postfix_expression(&left) {
                Ok(Some(expression)) => {
                    proof {
                        assert(spec_parse_postfix(toks, cur, leftv) == Ok::<
                            Option<(ExpressionV, int)>,
                            ParseError,
                        >(Some((expression@, self.pos as int))));
                        assert(cur < self.pos as int <= toks.len());
                        assert(spec_parse_climb(toks, cur, precedence, leftv) == spec_parse_climb(
                            toks,
                            self.pos as int,
                            precedence,
                            expression@,
                        ));
                    }
                    left = expression;
                },
                Ok(None) => {
                    match self.parse_infix_expression(&left) {
                        Ok(Some(expression)) => {
                            proof {
                                assert(spec_parse_climb(toks, cur, precedence, leftv)
                                    == spec_parse_climb(
                                    toks,
                                    self.pos as int,
                                    precedence,
                                    expression@,
                                ));
                            }
                            left = expression;
                        },
                        Ok(None) => {
                            proof {
                                assert(kind_at(toks, cur) != TokenKind::Eof);
                                assert(crate::token::spec_level(precedence)
                                    < crate::token::spec_level(
                                    crate::token::spec_precedence(kind_at(toks, cur)),
                                ));
                                assert(spec_parse_postfix(toks, cur, leftv) == Ok::<
                                    Option<(ExpressionV, int)>,
                                    ParseError,
                                >(None));
                                assert(spec_parse_infix(toks, cur, leftv) == Ok::<
                                    Option<(ExpressionV, int)>,
                                    ParseError,
                                >(None));
                                assert(spec_parse_climb(toks, cur, precedence, leftv) == Ok::<
                                    (ExpressionV, int),
                                    ParseError,
                                >((leftv, cur)));
                            }
                            return Ok(left);
                        },
                        Err(e) => {
                            proof {
                                assert(spec_parse_climb(toks, cur, precedence, leftv) == Err::<
                                    (ExpressionV, int),
                                    ParseError,
                                >(e));
                            }
                            return Err(e);
                        },
                    }
                },
                Err(e) => {
                    proof {
                        assert(spec_parse_climb(toks, cur, precedence, leftv) == Err::<
                            (ExpressionV, int),
                            ParseError,
                        >(e));
                    }
                    return Err(e);
                },
            }
        }
        proof {
            assert(spec_parse_climb(toks, self.pos as int, precedence, left@) == Ok::<
                (ExpressionV, int),
                ParseError,
            >((left@, self.pos as int)));
            assert(spec_parse_expression(toks, pos0, precedence) == spec_parse_climb(
                toks,
                pleaf,
                precedence,
                leafv,
            ));
        }
        Ok(left)
    }

    /// A leaf expression, as `spec_parse_leaf` computes: a literal, an
    /// identifier, a prefix operator application, a parenthesized
    /// grouping, or a bracketed list.
    fn parse_leaf(&mut self) -> (r: Result<Expression, ParseError>)
        requires
            old(self).wf(),
        ensures
            final(self).wf(),
            final(self).tokens == old(self).tokens,
            old(self).pos <= final(self).pos,
            r is Ok ==> old(self).pos < final(self).pos,
            expr_matches(
                spec_parse_leaf(old(self).tokens@, old(self).pos as int),
                r,
                final(self).pos as int,
            ),
        decreases old(self).remaining(), 0int,
    {
        let ghost toks = old(self).tokens@;
        let ghost pos0 = old(self).pos as int;
        match self.current() {
            Token::String(s) => {
                match self.expect_token_and_read(TokenKind::String) {
                    Ok(_) => Ok(Expression::String(s)),
                    Err(e) => Err(e),
                }
            },
            Token::Number(n) => {
                match self.expect_token_and_read(TokenKind::Number) {
                    Ok(_) => Ok(Expression::Number(n)),
                    Err(e) => Err(e),
                }
            },
            Token::True => {
                match self.expect_token_and_read(TokenKind::True) {
                    Ok(_) => Ok(Expression::Boolean(true)),
                    Err(e) => Err(e),
                }
            },
            Token::False => {
                match self.expect_token_and_read(TokenKind::False) {
                    Ok(_) => Ok(Expression::Boolean(false)),
                    Err(e) => Err(e),
                }
            },
            Token::Identifier(s) => {
                match self.expect_token_and_read(TokenKind::Identifier) {
                    Ok(_) => Ok(Expression::Identifier(s)),
                    Err(e) => Err(e),
                }
            },
            Token::Minus => {
                match self.expect_token_and_read(TokenKind::Minus) {
                    Ok(_) => {},
                    Err(e) => {
                        return Err(e);
                    },
                }
                match self.parse_expression(Precedence::Prefix) {
                    Ok(operand) => Ok(Expression::Prefix(Op::Subtract, operand.boxed())),
                    Err(e) => Err(e),
                }
            },
            Token::Bang => {
                match self.expect_token_and_read(TokenKind::Bang) {
                    Ok(_) => {},
                    Err(e) => {
                        return Err(e);
                    },
                }
                match self.parse_expression(Precedence::Prefix) {
                    Ok(operand) => Ok(Expression::Prefix(Op::Not, operand.boxed())),
                    Err(e) => Err(e),
                }
            },
            Token::LeftParen => {
                match self.expect_token_and_read(TokenKind::LeftParen) {
                    Ok(_) => {},
                    Err(e) => {
                        return Err(e);
                    },
                }
                let inner = match self.parse_expression(Precedence::Lowest) {
                    Ok(expr) => expr,
                    Err(e) => {
                        return Err(e);
                    },
                };
                match self.expect_token_and_read(TokenKind::RightParen) {
                    Ok(_) => Ok(inner),
                    Err(e) => Err(e),
                }
            },
            Token::LeftBracket => {
                match self.expect_token_and_read(TokenKind::LeftBracket) {
                    Ok(_) => {},
                    Err(e) => {
                        return Err(e);
                    },
                }
                let items = match self.parse_elements(TokenKind::RightBracket) {
                    Ok(items) => items,
                    Err(e) => {
                        return Err(e);
                    },
                };
                match self.expect_token_and_read(TokenKind::RightBracket) {
                    Ok(_) => Ok(Expression::List(items)),
                    Err(e) => Err(e),
                }
            },
            t => Err(ParseError::UnexpectedToken(t)),
        }
    }

    /// Comma-separated expressions up to (and not including) a token of
    /// kind `end`, as `spec_parse_elements` computes: the elements of a
    /// bracketed list or of a call's argument list.
    fn parse_elements(&mut self, end: TokenKind) -> (r: Result<Vec<Expression>, ParseError>)
        requires
            old(self).wf(),
        ensures
            final(self).wf(),
            final(self).tokens == old(self).tokens,
            old(self).pos <= final(self).pos,
            ({
                let s = spec_parse_elements(old(self).tokens@, old(self).pos as int, end);
                match r {
                    Ok(items) => s == Ok::<(Seq<ExpressionV>, int), ParseError>(
                        (exprs_view(items@), final(self).pos as int),
                    ),
                    Err(e) => s == Err::<(Seq<ExpressionV>, int), ParseError>(e),
                }
            }),
        decreases old(self).remaining(), 3int,
    {
        let ghost toks = old(self).tokens@;
        let ghost estart = old(self).pos as int;
        let mut items: Vec<Expression> = Vec::new();
        proof {
            assert(exprs_view(items@) =~= Seq::<ExpressionV>::empty());
        }
        while !self.current_is(end)
            invariant
                self.wf(),
                self.tokens == old(self).tokens,
                toks == self.tokens@,
                estart == old(self).pos as int,
                estart <= self.pos as int,
                spec_parse_elements(toks, estart, end) == (match spec_parse_elements(
                    toks,
                    self.pos as int,
                    end,
                ) {
                    Ok((rest, p)) => Ok::<(Seq<ExpressionV>, int), ParseError>(
                        (exprs_view(items@) + rest, p),
                    ),
                    Err(e) => Err::<(Seq<ExpressionV>, int), ParseError>(e),
                }),
            decreases self.remaining(),
        {
            let ghost old_items = items@;
            let element = match self.parse_expression(Precedence::Lowest) {
                Ok(expr) => expr,
                Err(e) => {
                    return Err(e);
                },
            };
            let ghost ev = element@;
            items.push(element);
            if self.current_is(TokenKind::Comma) {
                match self.expect_token_and_read(TokenKind::Comma) {
                    Ok(_) => {},
                    Err(e) => {
                        return Err(e);
                    },
                }
            }
            proof {
                assert(items@.drop_last() =~= old_items);
                assert(exprs_view(items@) =~= exprs_view(old_items).push(ev));
                assert forall|rest: Seq<ExpressionV>|
                    exprs_view(old_items) + (seq![ev] + rest) =~= exprs_view(items@) + rest by {}
            }
        }
        proof {
            assert(spec_parse_elements(toks, self.pos as int, end) == Ok::<
                (Seq<ExpressionV>, int),
                ParseError,
            >((Seq::empty(), self.pos as int)));
            assert(exprs_view(items@) + Seq::<ExpressionV>::empty() =~= exprs_view(items@));
        }
        Ok(items)
    }

    /// A postfix form continuing `left`, as `spec_parse_postfix`
    /// computes: a parenthesized argument list folds into a call keeping
    /// `left` as the callee; any other token declines with nothing
    /// consumed.
    fn parse_postfix_expression(&mut self, left: &Expression) -> (r: Result<
        Option<Expression>,
        ParseError,
    >)
        requires
            old(self).wf(),
        ensures
            final(self).wf(),
            final(self).tokens == old(self).tokens,
            old(self).pos <= final(self).pos,
            r matches Ok(Some(_)) ==> old(self).pos < final(self).pos,
            r matches Ok(None) ==> final(self).pos == old(self).pos,
            fold_matches(
                spec_parse_postfix(old(self).tokens@, old(self).pos as int, left@),
                r,
                final(self).pos as int,
            ),
        decreases old(self).remaining(), 1int,
    {
        match self.current_kind() {
            TokenKind::LeftParen => {
                match self.expect_token_and_read(TokenKind::LeftParen) {
                    Ok(_) => {},
                    Err(e) => {
                        return Err(e);
                    },
                }
                let args = match self.parse_elements(TokenKind::RightParen) {
                    Ok(args) => args,
                    Err(e) => {
                        return Err(e);
                    },
                };
                match self.expect_token_and_read(TokenKind::RightParen) {
                    Ok(_) => Ok(Some(Expression::Call(left.duplicate().boxed(), args))),
                    Err(e) => Err(e),
                }
            },
            _ => Ok(None),
        }
    }

    /// An infix form continuing `left`, as `spec_parse_infix` computes:
    /// a binary operator folds into an infix node whose right side is
    /// parsed at the operator's own tier, the assignment sign into an
    /// assignment whose right side is parsed at the loosest; any other
    /// token declines with nothing consumed.
    fn parse_infix_expression(&mut self, left: &Expression) -> (r: Result<
        Option<Expression>,
        ParseError,
    >)
        requires
            old(self).wf(),
        ensures
            final(self).wf(),
            final(self).tokens == old(self).tokens,
            old(self).pos <= final(self).pos,
            r matches Ok(Some(_)) ==> old(self).pos < final(self).pos,
            r matches Ok(None) ==> final(self).pos == old(self).pos,
            fold_matches(
                spec_parse_infix(old(self).tokens@, old(self).pos as int, left@),
                r,
                final(self).pos as int,
            ),
        decreases old(self).remaining(), 1int,
    {
        match self.current_kind() {
            TokenKind::Plus | TokenKind::Minus | TokenKind::Asterisk | TokenKind::Slash
                | TokenKind::Percent | TokenKind::Equals | TokenKind::NotEquals
                | TokenKind::LessThanOrEquals | TokenKind::LessThan | TokenKind::GreaterThan
                | TokenKind::GreaterThanOrEquals | TokenKind::And | TokenKind::Or => {
                let token = self.current();
                self.read();
                let right = match self.parse_expression(Precedence::token(&token)) {
                    Ok(expr) => expr,
                    Err(e) => {
                        return Err(e);
                    },
                };
                Ok(Some(Expression::Infix(
                    left.duplicate().boxed(),
                    Op::token(&token),
                    right.boxed(),
                )))
            },
            TokenKind::Assign => {
                self.read();
                let right = match self.parse_expression(Precedence::Lowest) {
                    Ok(expr) => expr,
                    Err(e) => {
                        return Err(e);
                    },
                };
                Ok(Some(Expression::Assign(left.duplicate().boxed(), right.boxed())))
            },
            _ => Ok(None),
        }
    }
}

} // verus!
