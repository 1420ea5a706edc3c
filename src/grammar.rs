use vstd::prelude::*;
use crate::ast::{Expr, Stmt};
use crate::number::parse_i64;
use crate::parse_error::ParseError;
use crate::token::{Token, TokenKind};

verus! {

/// Binding strength of operators, weakest first.
#[derive(Debug, PartialEq, Eq, Clone, Copy, Structural)]
pub enum PriorityOrder {
    Lowest,
    Equals,
    LessGreater,
    Sum,
    Product,
    Prefix,
    Call,
    Postfix,
}

/// The position of an operator strength in the order, weakest first.
pub open spec fn rank(o: PriorityOrder) -> nat {
    match o {
        PriorityOrder::Lowest => 0,
        PriorityOrder::Equals => 1,
        PriorityOrder::LessGreater => 2,
        PriorityOrder::Sum => 3,
        PriorityOrder::Product => 4,
        PriorityOrder::Prefix => 5,
        PriorityOrder::Call => 6,
        PriorityOrder::Postfix => 7,
    }
}

/// The binding strength of a token that continues an expression.
pub open spec fn order_of(k: TokenKind) -> PriorityOrder {
    match k {
        TokenKind::Eq | TokenKind::NotEq => PriorityOrder::Equals,
        TokenKind::LT | TokenKind::GT => PriorityOrder::LessGreater,
        TokenKind::Plus | TokenKind::Minus => PriorityOrder::Sum,
        TokenKind::Asterisk | TokenKind::Slash => PriorityOrder::Product,
        TokenKind::LParenthesis => PriorityOrder::Call,
        TokenKind::Inc | TokenKind::Dec => PriorityOrder::Postfix,
        _ => PriorityOrder::Lowest,
    }
}

/// Tokens that join two operands.
pub open spec fn is_binary(k: TokenKind) -> bool {
    k == TokenKind::Plus || k == TokenKind::Minus || k == TokenKind::Asterisk || k
        == TokenKind::Slash || k == TokenKind::Eq || k == TokenKind::NotEq || k == TokenKind::LT
        || k == TokenKind::GT
}

/// A parse of something of type `T` that ends on the token at the given index.
pub type Parsed<T> = Result<(T, int), ParseError>;

/// The kind of the token at index `p`, if there is one.
pub open spec fn kind_at(ts: Seq<Token>, p: int) -> Option<TokenKind> {
    if 0 <= p < ts.len() {
        Some(ts[p].kind)
    } else {
        None
    }
}

/// The end of a statement: a `;` after its last token is taken along when present.
pub open spec fn optional_semicolon(ts: Seq<Token>, p: int) -> Result<int, ParseError> {
    match kind_at(ts, p + 1) {
        None => Err(ParseError::FailedToReadToken),
        Some(TokenKind::Semicolon) => Ok(p + 1),
        Some(_) => Ok(p),
    }
}

/// Requires a token of kind `k` right after index `p`.
pub open spec fn expect_at(ts: Seq<Token>, p: int, k: TokenKind) -> Result<(), ParseError> {
    match kind_at(ts, p + 1) {
        None => Err(ParseError::FailedToReadToken),
        Some(found) => if found == k {
            Ok(())
        } else {
            Err(ParseError::InvalidTokenFound(k, found))
        },
    }
}

/// Statements from index `p` up to the end token.
pub open spec fn parse_from(ts: Seq<Token>, p: int, acc: Seq<Stmt>) -> Result<Seq<Stmt>, ParseError>
    decreases ts.len() - p, 5int,
{
    match kind_at(ts, p) {
        None => Err(ParseError::FailedToReadToken),
        Some(TokenKind::Eof) => Ok(acc),
        Some(_) => match parse_statement(ts, p) {
            Err(e) => Err(e),
            Ok((s, e1)) => if e1 < p || e1 >= ts.len() {
                Err(ParseError::FailedToReadToken)
            } else {
                parse_from(ts, e1 + 1, acc.push(s))
            },
        },
    }
}

/// A whole program: statements until the end token.
pub open spec fn parse_program(ts: Seq<Token>) -> Result<Seq<Stmt>, ParseError> {
    parse_from(ts, 0, Seq::empty())
}

pub open spec fn parse_statement(ts: Seq<Token>, p: int) -> Parsed<Stmt>
    decreases ts.len() - p, 4int,
{
    match kind_at(ts, p) {
        None => Err(ParseError::FailedToReadToken),
        Some(TokenKind::Let) => parse_let(ts, p),
        Some(TokenKind::Return) => parse_return(ts, p),
        Some(_) => parse_expression_statement(ts, p),
    }
}

/// `let <ident> = <expression> [;]`
pub open spec fn parse_let(ts: Seq<Token>, p: int) -> Parsed<Stmt>
    decreases ts.len() - p, 3int,
{
    if p < 0 || p >= ts.len() {
        Err(ParseError::FailedToReadToken)
    } else {
        match expect_at(ts, p, TokenKind::Ident) {
            Err(e) => Err(e),
            Ok(_) => match expect_at(ts, p + 1, TokenKind::Assign) {
                Err(e) => Err(e),
                Ok(_) => match parse_expression(ts, p + 3, PriorityOrder::Lowest) {
                    Err(e) => Err(e),
                    Ok((e, e1)) => match optional_semicolon(ts, e1) {
                        Err(err) => Err(err),
                        Ok(end) => Ok((Stmt::Let(ts[p + 1].literal@, e), end)),
                    },
                },
            },
        }
    }
}

/// `return <expression> [;]`
pub open spec fn parse_return(ts: Seq<Token>, p: int) -> Parsed<Stmt>
    decreases ts.len() - p, 3int,
{
    if p < 0 || p >= ts.len() {
        Err(ParseError::FailedToReadToken)
    } else {
        match parse_expression(ts, p + 1, PriorityOrder::Lowest) {
            Err(e) => Err(e),
            Ok((e, e1)) => match optional_semicolon(ts, e1) {
                Err(err) => Err(err),
                Ok(end) => Ok((Stmt::Ret(e), end)),
            },
        }
    }
}

/// `<expression> [;]`
pub open spec fn parse_expression_statement(ts: Seq<Token>, p: int) -> Parsed<Stmt>
    decreases ts.len() - p, 3int,
{
    if p < 0 || p >= ts.len() {
        Err(ParseError::FailedToReadToken)
    } else {
        match parse_expression(ts, p, PriorityOrder::Lowest) {
            Err(e) => Err(e),
            Ok((e, e1)) => match optional_semicolon(ts, e1) {
                Err(err) => Err(err),
                Ok(end) => Ok((Stmt::Exp(e), end)),
            },
        }
    }
}

/// `{ <statements> }`, starting at the `{` and ending at the `}`.
pub open spec fn parse_block(ts: Seq<Token>, p: int) -> Parsed<Seq<Stmt>>
    decreases ts.len() - p, 1int,
{
    if p < 0 || p >= ts.len() {
        Err(ParseError::FailedToReadToken)
    } else {
        parse_block_from(ts, p + 1, Seq::empty())
    }
}

pub open spec fn parse_block_from(ts: Seq<Token>, p: int, acc: Seq<Stmt>) -> Parsed<Seq<Stmt>>
    decreases ts.len() - p, 5int,
{
    match kind_at(ts, p) {
        None => Err(ParseError::FailedToReadToken),
        Some(TokenKind::RCurlyBracket) => Ok((acc, p)),
        Some(_) => match parse_statement(ts, p) {
            Err(e) => Err(e),
            Ok((s, e1)) => if e1 < p || e1 >= ts.len() {
                Err(ParseError::FailedToReadToken)
            } else {
                parse_block_from(ts, e1 + 1, acc.push(s))
            },
        },
    }
}

/// An expression starting at index `p` whose operators bind more strongly than `order`.
pub open spec fn parse_expression(ts: Seq<Token>, p: int, order: PriorityOrder) -> Parsed<Expr>
    decreases ts.len() - p, 2int,
{
    if p < 0 || p >= ts.len() {
        Err(ParseError::FailedToReadToken)
    } else {
        match parse_primary(ts, p) {
            Err(e) => Err(e),
            Ok((left, e1)) => if e1 < p || e1 >= ts.len() {
                Err(ParseError::FailedToReadToken)
            } else {
                parse_operators(ts, left, e1, order)
            },
        }
    }
}

/// The expression that a token starts.
pub open spec fn parse_primary(ts: Seq<Token>, p: int) -> Parsed<Expr>
    decreases ts.len() - p, 1int,
{
    if p < 0 || p >= ts.len() {
        Err(ParseError::FailedToReadToken)
    } else {
        let t = ts[p];
        match t.kind {
            TokenKind::Ident => Ok((Expr::Ident(t.literal@), p)),
            TokenKind::Int => match parse_i64(t.literal@) {
                Some(v) => Ok((Expr::Int(v), p)),
                None => Err(ParseError::InvalidIntegerLiteral),
            },
            TokenKind::Str => Ok((Expr::Str(t.literal@), p)),
            TokenKind::True => Ok((Expr::Bool(true), p)),
            TokenKind::False => Ok((Expr::Bool(false), p)),
            TokenKind::LParenthesis => match parse_expression(ts, p + 1, PriorityOrder::Lowest) {
                Err(e) => Err(e),
                Ok((e, e1)) => match expect_at(ts, e1, TokenKind::RParenthesis) {
                    Err(err) => Err(err),
                    Ok(_) => Ok((e, e1 + 1)),
                },
            },
            TokenKind::Bang | TokenKind::Minus | TokenKind::Inc | TokenKind::Dec => match parse_expression(
                ts,
                p + 1,
                PriorityOrder::Prefix,
            ) {
                Err(e) => Err(e),
                Ok((e, e1)) => Ok((Expr::Prefix(t.kind, Box::new(e)), e1)),
            },
            TokenKind::If => parse_if(ts, p),
            TokenKind::Function => parse_function(ts, p),
            k => Err(ParseError::NoSuchExpressionStartWith(k)),
        }
    }
}

/// Folds the operators that follow `left` (which ends at `p`) into it while
/// they bind more strongly than `order`.
pub open spec fn parse_operators(ts: Seq<Token>, left: Expr, p: int, order: PriorityOrder) -> Parsed<
    Expr,
>
    decreases ts.len() - p, 0int,
{
    if p < 0 || p >= ts.len() {
        Err(ParseError::FailedToReadToken)
    } else {
        match kind_at(ts, p + 1) {
            None => Err(ParseError::FailedToReadToken),
            Some(k) => if k == TokenKind::Semicolon || rank(order) >= rank(order_of(k)) {
                Ok((left, p))
            } else if is_binary(k) {
                match parse_expression(ts, p + 2, order_of(k)) {
                    Err(e) => Err(e),
                    Ok((right, e2)) => if e2 <= p || e2 >= ts.len() {
                        Err(ParseError::FailedToReadToken)
                    } else {
                        parse_operators(
                            ts,
                            Expr::Infix(k, Box::new(left), Box::new(right)),
                            e2,
                            order,
                        )
                    },
                }
            } else if k == TokenKind::LParenthesis {
                match parse_call_arguments(ts, p + 1) {
                    Err(e) => Err(e),
                    Ok((args, e2)) => if e2 <= p || e2 >= ts.len() {
                        Err(ParseError::FailedToReadToken)
                    } else {
                        parse_operators(ts, Expr::Call(Box::new(left), args), e2, order)
                    },
                }
            } else if k == TokenKind::Inc || k == TokenKind::Dec {
                parse_operators(ts, Expr::Postfix(k, Box::new(left)), p + 1, order)
            } else {
                Ok((left, p))
            },
        }
    }
}

/// `if (<condition>) { ... } [else { ... }]`
pub open spec fn parse_if(ts: Seq<Token>, p: int) -> Parsed<Expr>
    decreases ts.len() - p, 0int,
{
    if p < 0 || p >= ts.len() {
        Err(ParseError::FailedToReadToken)
    } else {
        match expect_at(ts, p, TokenKind::LParenthesis) {
            Err(e) => Err(e),
            Ok(_) => match parse_expression(ts, p + 2, PriorityOrder::Lowest) {
                Err(e) => Err(e),
                Ok((cond, e1)) => match expect_at(ts, e1, TokenKind::RParenthesis) {
                    Err(e) => Err(e),
                    Ok(_) => match expect_at(ts, e1 + 1, TokenKind::LCurlyBracket) {
                        Err(e) => Err(e),
                        Ok(_) => if e1 + 2 <= p {
                            Err(ParseError::FailedToReadToken)
                        } else {
                            match parse_block(ts, e1 + 2) {
                                Err(e) => Err(e),
                                Ok((cons, e2)) => match kind_at(ts, e2 + 1) {
                                    None => Err(ParseError::FailedToReadToken),
                                    Some(TokenKind::Else) => match expect_at(
                                        ts,
                                        e2 + 1,
                                        TokenKind::LCurlyBracket,
                                    ) {
                                        Err(e) => Err(e),
                                        Ok(_) => if e2 + 2 <= p {
                                            Err(ParseError::FailedToReadToken)
                                        } else {
                                            match parse_block(ts, e2 + 2) {
                                                Err(e) => Err(e),
                                                Ok((alt, e3)) => Ok(
                                                    (Expr::If(Box::new(cond), cons, Some(alt)), e3),
                                                ),
                                            }
                                        },
                                    },
                                    Some(_) => Ok((Expr::If(Box::new(cond), cons, None), e2)),
                                },
                            }
                        },
                    },
                },
            },
        }
    }
}

/// `fn(<params>) { ... }`
pub open spec fn parse_function(ts: Seq<Token>, p: int) -> Parsed<Expr>
    decreases ts.len() - p, 0int,
{
    if p < 0 || p >= ts.len() {
        Err(ParseError::FailedToReadToken)
    } else {
        match expect_at(ts, p, TokenKind::LParenthesis) {
            Err(e) => Err(e),
            Ok(_) => match parse_params(ts, p + 1) {
                Err(e) => Err(e),
                Ok((params, e1)) => match expect_at(ts, e1, TokenKind::LCurlyBracket) {
                    Err(e) => Err(e),
                    Ok(_) => if e1 + 1 <= p {
                        Err(ParseError::FailedToReadToken)
                    } else {
                        match parse_block(ts, e1 + 1) {
                            Err(e) => Err(e),
                            Ok((body, e2)) => Ok((Expr::Func(params, body), e2)),
                        }
                    },
                },
            },
        }
    }
}

/// The name of the identifier at index `p`.
pub open spec fn parse_identifier(ts: Seq<Token>, p: int) -> Result<Seq<char>, ParseError> {
    match kind_at(ts, p) {
        None => Err(ParseError::FailedToReadToken),
        Some(TokenKind::Ident) => Ok(ts[p].literal@),
        Some(k) => Err(ParseError::InvalidTokenFound(TokenKind::Ident, k)),
    }
}

/// `(<ident>, ...)`, starting at the `(` and ending at the `)`.
pub open spec fn parse_params(ts: Seq<Token>, p: int) -> Parsed<Seq<Seq<char>>> {
    match kind_at(ts, p + 1) {
        None => Err(ParseError::FailedToReadToken),
        Some(TokenKind::RParenthesis) => Ok((Seq::empty(), p + 1)),
        Some(_) => match parse_identifier(ts, p + 1) {
            Err(e) => Err(e),
            Ok(name) => parse_params_from(ts, p + 1, seq![name]),
        },
    }
}

/// Further `, <ident>` after the parameter at index `p`, then the `)`.
pub open spec fn parse_params_from(ts: Seq<Token>, p: int, acc: Seq<Seq<char>>) -> Parsed<
    Seq<Seq<char>>,
>
    decreases ts.len() - p,
{
    if p < 0 || p >= ts.len() {
        Err(ParseError::FailedToReadToken)
    } else {
        match kind_at(ts, p + 1) {
            None => Err(ParseError::FailedToReadToken),
            Some(TokenKind::Comma) => match parse_identifier(ts, p + 2) {
                Err(e) => Err(e),
                Ok(name) => parse_params_from(ts, p + 2, acc.push(name)),
            },
            Some(TokenKind::RParenthesis) => Ok((acc, p + 1)),
            Some(k) => Err(ParseError::InvalidTokenFound(TokenKind::RParenthesis, k)),
        }
    }
}

/// `(<expression>, ...)`, starting at the `(` and ending at the `)`.
pub open spec fn parse_call_arguments(ts: Seq<Token>, p: int) -> Parsed<Seq<Expr>>
    decreases ts.len() - p, 1int,
{
    if p < 0 || p >= ts.len() {
        Err(ParseError::FailedToReadToken)
    } else {
        match kind_at(ts, p + 1) {
            None => Err(ParseError::FailedToReadToken),
            Some(TokenKind::RParenthesis) => Ok((Seq::empty(), p + 1)),
            Some(_) => match parse_expression(ts, p + 1, PriorityOrder::Lowest) {
                Err(e) => Err(e),
                Ok((e, e1)) => if e1 <= p || e1 >= ts.len() {
                    Err(ParseError::FailedToReadToken)
                } else {
                    parse_arguments_from(ts, e1, seq![e])
                },
            },
        }
    }
}

/// Further `, <expression>` after an argument ending at index `p`, then the `)`.
pub open spec fn parse_arguments_from(ts: Seq<Token>, p: int, acc: Seq<Expr>) -> Parsed<Seq<Expr>>
    decreases ts.len() - p, 0int,
{
    if p < 0 || p >= ts.len() {
        Err(ParseError::FailedToReadToken)
    } else {
        match kind_at(ts, p + 1) {
            None => Err(ParseError::FailedToReadToken),
            Some(TokenKind::Comma) => match parse_expression(ts, p + 2, PriorityOrder::Lowest) {
                Err(e) => Err(e),
                Ok((e, e2)) => if e2 <= p || e2 >= ts.len() {
                    Err(ParseError::FailedToReadToken)
                } else {
                    parse_arguments_from(ts, e2, acc.push(e))
                },
            },
            Some(TokenKind::RParenthesis) => Ok((acc, p + 1)),
            Some(k) => Err(ParseError::InvalidTokenFound(TokenKind::RParenthesis, k)),
        }
    }
}

} // verus!
