//! The abstract syntax tree that the parser produces and the interpreter
//! walks, together with its mathematical model.
//!
//! Every executable node has a ghost counterpart (`ExpressionV`,
//! `StatementV`) whose strings are `Seq<char>`, whose numbers are `int`,
//! and whose child lists are `Seq`; contracts throughout the crate speak
//! of those models through the `View` impls below.

use vstd::prelude::*;

use crate::token::{spec_kind, Token, TokenKind};

verus! {

/// A variable or function name.
pub type Identifier = String;

/// A binary or prefix operator of the language.
#[derive(Debug, Clone, Copy, PartialEq, Eq, Structural)]
pub enum Op {
    Add,
    Subtract,
    Multiply,
    Divide,
    Modulo,
    Equals,
    NotEquals,
    LessThan,
    GreaterThan,
    LessThanOrEquals,
    GreaterThanOrEquals,
    And,
    Or,
    Not,
}

/// True when tokens of kind `k` stand for an operator that `Op::token`
/// accepts.
pub open spec fn is_operator_token(k: TokenKind) -> bool {
    match k {
        TokenKind::Plus
        | TokenKind::Minus
        | TokenKind::Asterisk
        | TokenKind::Slash
        | TokenKind::Percent
        | TokenKind::Bang
        | TokenKind::Equals
        | TokenKind::NotEquals
        | TokenKind::LessThan
        | TokenKind::GreaterThan
        | TokenKind::LessThanOrEquals
        | TokenKind::GreaterThanOrEquals
        | TokenKind::And
        | TokenKind::Or => true,
        _ => false,
    }
}

/// The operator that a token of kind `k` denotes; meaningful only when
/// `is_operator_token(k)` holds.
pub open spec fn spec_op_of(k: TokenKind) -> Op {
    match k {
        TokenKind::Plus => Op::Add,
        TokenKind::Minus => Op::Subtract,
        TokenKind::Asterisk => Op::Multiply,
        TokenKind::Slash => Op::Divide,
        TokenKind::Percent => Op::Modulo,
        TokenKind::Bang => Op::Not,
        TokenKind::Equals => Op::Equals,
        TokenKind::NotEquals => Op::NotEquals,
        TokenKind::LessThan => Op::LessThan,
        TokenKind::GreaterThan => Op::GreaterThan,
        TokenKind::LessThanOrEquals => Op::LessThanOrEquals,
        TokenKind::GreaterThanOrEquals => Op::GreaterThanOrEquals,
        TokenKind::And => Op::And,
        TokenKind::Or => Op::Or,
        _ => Op::Not,
    }
}

impl Op {
    /// The operator that `token` denotes.
    pub fn token(token: &Token) -> (op: Op)
        requires
            is_operator_token(spec_kind(*token)),
        ensures
            op == spec_op_of(spec_kind(*token)),
    {
        match token {
            Token::Plus => Op::Add,
            Token::Minus => Op::Subtract,
            Token::Asterisk => Op::Multiply,
            Token::Slash => Op::Divide,
            Token::Percent => Op::Modulo,
            Token::Bang => Op::Not,
            Token::Equals => Op::Equals,
            Token::NotEquals => Op::NotEquals,
            Token::LessThan => Op::LessThan,
            Token::GreaterThan => Op::GreaterThan,
            Token::LessThanOrEquals => Op::LessThanOrEquals,
            Token::GreaterThanOrEquals => Op::GreaterThanOrEquals,
            Token::And => Op::And,
            Token::Or => Op::Or,
            _ => {
                proof {
                    assert(false);
                }
                Op::Not
            },
        }
    }
}

/// A declared function parameter.
#[derive(Debug, PartialEq)]
pub struct Parameter {
    pub name: Identifier,
}

impl View for Parameter {
    type V = Seq<char>;

    open spec fn view(&self) -> Seq<char> {
        self.name@
    }
}

/// The names of the parameters in `s`, in order.
pub open spec fn params_view(s: Seq<Parameter>) -> Seq<Seq<char>> {
    Seq::new(s.len(), |i: int| s[i].name@)
}

impl Parameter {
    /// A copy of this parameter with the same name.
    pub fn duplicate(&self) -> (r: Parameter)
        ensures
            r@ == self@,
    {
        Parameter { name: self.name.clone() }
    }
}

/// Copies of the parameters in `v`, in order, with equal names.
pub fn duplicate_parameters(v: &Vec<Parameter>) -> (r: Vec<Parameter>)
    ensures
        params_view(r@) == params_view(v@),
{
    let mut r: Vec<Parameter> = Vec::new();
    let mut i: usize = 0;
    while i < v.len()
        invariant
            i <= v.len(),
            r@.len() == i as int,
            forall|j: int| 0 <= j < i as int ==> r@[j]@ == #[trigger] v@[j]@,
        decreases v.len() - i,
    {
        r.push(v[i].duplicate());
        i = i + 1;
    }
    proof {
        assert forall|j: int| 0 <= j < v@.len() implies params_view(r@)[j] == params_view(v@)[j] by {
            assert(r@[j]@ == v@[j]@);
        }
        assert(params_view(r@) =~= params_view(v@));
    }
    r
}

/// An expression of the language. Evaluated expressions are reused as
/// run-time values: a value is a `Number`, `String`, `Boolean`, or a
/// `List` of values.
#[derive(Debug, PartialEq)]
pub enum Expression {
    Number(i64),
    String(String),
    Boolean(bool),
    Identifier(Identifier),
    Assign(Box<Expression>, Box<Expression>),
    Infix(Box<Expression>, Op, Box<Expression>),
    Prefix(Op, Box<Expression>),
    Call(Box<Expression>, Vec<Expression>),
    List(Vec<Expression>),
    Break,
}

/// The model of an expression: strings as character sequences, numbers as
/// unbounded integers, child lists as `Seq`.
pub enum ExpressionV {
    Number(int),
    String(Seq<char>),
    Boolean(bool),
    Identifier(Seq<char>),
    Assign(Box<ExpressionV>, Box<ExpressionV>),
    Infix(Box<ExpressionV>, Op, Box<ExpressionV>),
    Prefix(Op, Box<ExpressionV>),
    Call(Box<ExpressionV>, Seq<ExpressionV>),
    List(Seq<ExpressionV>),
    Break,
}

/// The model of `e`.
pub open spec fn expr_view(e: Expression) -> ExpressionV
    decreases e, 1int,
{
    match e {
        Expression::Number(n) => ExpressionV::Number(n as int),
        Expression::String(s) => ExpressionV::String(s@),
        Expression::Boolean(b) => ExpressionV::Boolean(b),
        Expression::Identifier(s) => ExpressionV::Identifier(s@),
        Expression::Assign(t, v) => ExpressionV::Assign(
            Box::new(expr_view(*t)),
            Box::new(expr_view(*v)),
        ),
        Expression::Infix(l, op, r) => ExpressionV::Infix(
            Box::new(expr_view(*l)),
            op,
            Box::new(expr_view(*r)),
        ),
        Expression::Prefix(op, x) => ExpressionV::Prefix(op, Box::new(expr_view(*x))),
        Expression::Call(f, args) => ExpressionV::Call(
            Box::new(expr_view(*f)),
            exprs_view(args@),
        ),
        Expression::List(items) => ExpressionV::List(exprs_view(items@)),
        Expression::Break => ExpressionV::Break,
    }
}

/// The models of the expressions in `s`, in order.
pub open spec fn exprs_view(s: Seq<Expression>) -> Seq<ExpressionV>
    decreases s, 0int,
{
    if s.len() == 0 {
        Seq::empty()
    } else {
        exprs_view(s.drop_last()).push(expr_view(s.last()))
    }
}

/// `exprs_view` maps each element to its model and keeps the length.
pub broadcast proof fn lemma_exprs_view(s: Seq<Expression>)
    ensures
        (#[trigger] exprs_view(s)).len() == s.len(),
        forall|i: int| 0 <= i < s.len() ==> exprs_view(s)[i] == expr_view(s[i]),
    decreases s.len(),
{
    if s.len() > 0 {
        lemma_exprs_view(s.drop_last());
    }
}

impl View for Expression {
    type V = ExpressionV;

    open spec fn view(&self) -> ExpressionV {
        expr_view(*self)
    }
}

impl Expression {
    /// This expression wrapped in `Some`, for fluent construction.
    pub fn some(self) -> (r: Option<Self>)
        ensures
            r == Some(self),
    {
        Some(self)
    }

    /// This expression boxed, for fluent construction of child nodes.
    pub fn boxed(self) -> (r: Box<Self>)
        ensures
            *r == self,
    {
        Box::new(self)
    }

    /// A copy of this expression whose model equals this one's.
    pub fn duplicate(&self) -> (r: Expression)
        ensures
            r@ == self@,
        decreases *self,
    {
        match self {
            Expression::Number(n) => Expression::Number(*n),
            Expression::String(s) => Expression::String(s.clone()),
            Expression::Boolean(b) => Expression::Boolean(*b),
            Expression::Identifier(s) => Expression::Identifier(s.clone()),
            Expression::Assign(t, v) => Expression::Assign(
                Box::new(t.duplicate()),
                Box::new(v.duplicate()),
            ),
            Expression::Infix(l, op, r) => Expression::Infix(
                Box::new(l.duplicate()),
                *op,
                Box::new(r.duplicate()),
            ),
            Expression::Prefix(op, x) => Expression::Prefix(*op, Box::new(x.duplicate())),
            Expression::Call(f, args) => Expression::Call(
                Box::new(f.duplicate()),
                duplicate_expressions(args),
            ),
            Expression::List(items) => Expression::List(duplicate_expressions(items)),
            Expression::Break => Expression::Break,
        }
    }
}

/// Copies of the expressions in `v`, in order, with equal models.
pub fn duplicate_expressions(v: &Vec<Expression>) -> (r: Vec<Expression>)
    ensures
        exprs_view(r@) == exprs_view(v@),
    decreases *v,
{
    let mut r: Vec<Expression> = Vec::new();
    let mut i: usize = 0;
    while i < v.len()
        invariant
            i <= v.len(),
            r@.len() == i as int,
            forall|j: int| 0 <= j < i as int ==> r@[j]@ == #[trigger] v@[j]@,
        decreases v.len() - i,
    {
        proof {
            assert(decreases_to!(*v => v@[i as int]));
        }
        let e = &v[i];
        r.push(e.duplicate());
        i = i + 1;
    }
    proof {
        lemma_exprs_view(r@);
        lemma_exprs_view(v@);
        assert forall|j: int| 0 <= j < v@.len() implies exprs_view(r@)[j] == exprs_view(v@)[j] by {
            assert(r@[j]@ == v@[j]@);
        }
        assert(exprs_view(r@) =~= exprs_view(v@));
    }
    r
}

/// A loop header `(let value : iterable)`: the bound name and the
/// expression whose list is walked.
#[derive(Debug, PartialEq)]
pub struct LoopBinding {
    pub value: Identifier,
    pub iterable: Expression,
}

/// The model of a loop header binding.
pub struct LoopBindingV {
    pub value: Seq<char>,
    pub iterable: ExpressionV,
}

impl View for LoopBinding {
    type V = LoopBindingV;

    open spec fn view(&self) -> LoopBindingV {
        LoopBindingV { value: self.value@, iterable: expr_view(self.iterable) }
    }
}

/// A statement of the language.
#[derive(Debug, PartialEq)]
pub enum Statement {
    Let { name: Identifier, initial: Option<Expression> },
    FunctionDeclaration { name: Identifier, params: Vec<Parameter>, body: Block },
    If { condition: Expression, then: Block, otherwise: Option<Block> },
    Loop { binding: Option<LoopBinding>, then: Block },
    Return { value: Option<Expression> },
    Break,
    Expression { expression: Expression },
}

/// An ordered sequence of statements run in order: a loop or function
/// body, an `if` branch, or a whole program.
pub type Block = Vec<Statement>;

/// The model of a statement.
pub enum StatementV {
    Let { name: Seq<char>, initial: Option<ExpressionV> },
    FunctionDeclaration { name: Seq<char>, params: Seq<Seq<char>>, body: Seq<StatementV> },
    If { condition: ExpressionV, then: Seq<StatementV>, otherwise: Option<Seq<StatementV>> },
    Loop { binding: Option<LoopBindingV>, then: Seq<StatementV> },
    Return { value: Option<ExpressionV> },
    Break,
    Expression { expression: ExpressionV },
}

/// The model of an optional initializer or return value.
pub open spec fn opt_expr_view(o: Option<Expression>) -> Option<ExpressionV> {
    match o {
        Option::None => Option::None,
        Option::Some(e) => Option::Some(expr_view(e)),
    }
}

/// The model of `s`.
pub open spec fn stmt_view(s: Statement) -> StatementV
    decreases s, 1int,
{
    match s {
        Statement::Let { name, initial } => StatementV::Let {
            name: name@,
            initial: match initial {
                Option::None => Option::None,
                Option::Some(e) => Option::Some(expr_view(e)),
            },
        },
        Statement::FunctionDeclaration { name, params, body } => StatementV::FunctionDeclaration {
            name: name@,
            params: params_view(params@),
            body: block_view(body@),
        },
        Statement::If { condition, then, otherwise } => StatementV::If {
            condition: expr_view(condition),
            then: block_view(then@),
            otherwise: match otherwise {
                Option::None => Option::None,
                Option::Some(b) => Option::Some(block_view(b@)),
            },
        },
        Statement::Loop { binding, then } => StatementV::Loop {
            binding: match binding {
                Option::None => Option::None,
                Option::Some(lb) => Option::Some(
                    LoopBindingV { value: lb.value@, iterable: expr_view(lb.iterable) },
                ),
            },
            then: block_view(then@),
        },
        Statement::Return { value } => StatementV::Return {
            value: match value {
                Option::None => Option::None,
                Option::Some(e) => Option::Some(expr_view(e)),
            },
        },
        Statement::Break => StatementV::Break,
        Statement::Expression { expression } => StatementV::Expression {
            expression: expr_view(expression),
        },
    }
}

/// The models of the statements in `b`, in order.
pub open spec fn block_view(b: Seq<Statement>) -> Seq<StatementV>
    decreases b, 0int,
{
    if b.len() == 0 {
        Seq::empty()
    } else {
        block_view(b.drop_last()).push(stmt_view(b.last()))
    }
}

/// `block_view` maps each element to its model and keeps the length.
pub broadcast proof fn lemma_block_view(b: Seq<Statement>)
    ensures
        (#[trigger] block_view(b)).len() == b.len(),
        forall|i: int| 0 <= i < b.len() ==> block_view(b)[i] == stmt_view(b[i]),
    decreases b.len(),
{
    if b.len() > 0 {
        lemma_block_view(b.drop_last());
    }
}

impl View for Statement {
    type V = StatementV;

    open spec fn view(&self) -> StatementV {
        stmt_view(*self)
    }
}

impl Statement {
    /// A copy of this statement whose model equals this one's.
    pub fn duplicate(&self) -> (r: Statement)
        ensures
            r@ == self@,
        decreases *self,
    {
        match self {
            Statement::Let { name, initial } => Statement::Let {
                name: name.clone(),
                initial: match initial {
                    Option::None => Option::None,
                    Option::Some(e) => Option::Some(e.duplicate()),
                },
            },
            Statement::FunctionDeclaration { name, params, body } => {
                Statement::FunctionDeclaration {
                    name: name.clone(),
                    params: duplicate_parameters(params),
                    body: duplicate_block(body),
                }
            },
            Statement::If { condition, then, otherwise } => Statement::If {
                condition: condition.duplicate(),
                then: duplicate_block(then),
                otherwise: match otherwise {
                    Option::None => Option::None,
                    Option::Some(b) => Option::Some(duplicate_block(b)),
                },
            },
            Statement::Loop { binding, then } => Statement::Loop {
                binding: match binding {
                    Option::None => Option::None,
                    Option::Some(lb) => Option::Some(
                        LoopBinding {
                            value: lb.value.clone(),
                            iterable: lb.iterable.duplicate(),
                        },
                    ),
                },
                then: duplicate_block(then),
            },
            Statement::Return { value } => Statement::Return {
                value: match value {
                    Option::None => Option::None,
                    Option::Some(e) => Option::Some(e.duplicate()),
                },
            },
            Statement::Break => Statement::Break,
            Statement::Expression { expression } => Statement::Expression {
                expression: expression.duplicate(),
            },
        }
    }
}

/// Copies of the statements in `b`, in order, with equal models.
pub fn duplicate_block(b: &Block) -> (r: Block)
    ensures
        block_view(r@) == block_view(b@),
    decreases *b,
{
    let mut r: Block = Vec::new();
    let mut i: usize = 0;
    while i < b.len()
        invariant
            i <= b.len(),
            r@.len() == i as int,
            forall|j: int| 0 <= j < i as int ==> r@[j]@ == #[trigger] b@[j]@,
        decreases b.len() - i,
    {
        proof {
            assert(decreases_to!(*b => b@[i as int]));
        }
        let s = &b[i];
        r.push(s.duplicate());
        i = i + 1;
    }
    proof {
        lemma_block_view(r@);
        lemma_block_view(b@);
        assert forall|j: int| 0 <= j < b@.len() implies block_view(r@)[j] == block_view(b@)[j] by {
            assert(r@[j]@ == b@[j]@);
        }
        assert(block_view(r@) =~= block_view(b@));
    }
    r
}

} // verus!
