use vstd::prelude::*;
use crate::ast::{
    BlkStatement, CallExpression, ExpStatement, Expression, FunctionExpression, Identifier,
    IfExpression, InfixExpression, LetStatement, PostfixExpression, PrefixExpression, Program,
    RetStatement, Statement, Boolean, Integer, StringLiteral, Expr, Stmt, expr_view, exprs_view, stmt_view,
    stmts_view, params_view, lemma_stmts_view_push, lemma_exprs_view_push,
    lemma_params_view_push,
};
use crate::grammar::{
    PriorityOrder, Parsed, rank, order_of, kind_at, optional_semicolon, expect_at,
    parse_from, parse_program, parse_statement, parse_let, parse_return,
    parse_expression_statement, parse_block, parse_block_from, parse_expression, parse_primary,
    parse_operators, parse_if, parse_function, parse_identifier, parse_params, parse_params_from,
    parse_call_arguments, parse_arguments_from,
};
use crate::number::str_to_i64;
use crate::parse_error::ParseError;
use crate::token::{Token, TokenKind};

verus! {

pub open spec fn ok_stmt(r: Result<Statement, ParseError>, s: Parsed<Stmt>, end: int) -> bool {
    match r {
        Ok(x) => s == Ok::<(Stmt, int), ParseError>((stmt_view(x), end)),
        Err(e) => s == Err::<(Stmt, int), ParseError>(e),
    }
}

pub open spec fn ok_expr(r: Result<Expression, ParseError>, s: Parsed<Expr>, end: int) -> bool {
    match r {
        Ok(x) => s == Ok::<(Expr, int), ParseError>((expr_view(x), end)),
        Err(e) => s == Err::<(Expr, int), ParseError>(e),
    }
}

pub open spec fn ok_stmts(r: Result<Vec<Statement>, ParseError>, s: Parsed<Seq<Stmt>>, end: int) -> bool {
    match r {
        Ok(x) => s == Ok::<(Seq<Stmt>, int), ParseError>((stmts_view(x@), end)),
        Err(e) => s == Err::<(Seq<Stmt>, int), ParseError>(e),
    }
}

pub open spec fn ok_exprs(r: Result<Vec<Expression>, ParseError>, s: Parsed<Seq<Expr>>, end: int) -> bool {
    match r {
        Ok(x) => s == Ok::<(Seq<Expr>, int), ParseError>((exprs_view(x@), end)),
        Err(e) => s == Err::<(Seq<Expr>, int), ParseError>(e),
    }
}

pub open spec fn ok_params(r: Result<Vec<Identifier>, ParseError>, s: Parsed<Seq<Seq<char>>>, end: int) -> bool {
    match r {
        Ok(x) => s == Ok::<(Seq<Seq<char>>, int), ParseError>((params_view(x@), end)),
        Err(e) => s == Err::<(Seq<Seq<char>>, int), ParseError>(e),
    }
}

fn rank_of(o: PriorityOrder) -> (r: u8)
    ensures
        r as nat == rank(o),
{
    match o {
        PriorityOrder::Lowest => 0,
        PriorityOrder::Equals => 1,
        PriorityOrder::LessGreater => 2,
        PriorityOrder::Sum => 3,
        PriorityOrder::Product => 4,
        PriorityOrder::Prefix => 5,
        PriorityOrder::Call => 6,
        PriorityOrder::Postfix => 7,
    }
}

fn token_to_order(k: TokenKind) -> (r: PriorityOrder)
    ensures
        r == order_of(k),
{
    match k {
        TokenKind::Eq | TokenKind::NotEq => PriorityOrder::Equals,
        TokenKind::LT | TokenKind::GT => PriorityOrder::LessGreater,
        TokenKind::Plus | TokenKind::Minus => PriorityOrder::Sum,
        TokenKind::Asterisk | TokenKind::Slash => PriorityOrder::Product,
        TokenKind::LParenthesis => PriorityOrder::Call,
        TokenKind::Inc | TokenKind::Dec => PriorityOrder::Postfix,
        _ => PriorityOrder::Lowest,
    }
}

/// A recursive-descent parser with operator precedence over a token sequence.
/// `curr` is the index of the token being looked at.
pub struct Parser {
    pub token: Vec<Token>,
    pub curr: usize,
}

impl Parser {
    pub fn new(token: Vec<Token>) -> (r: Parser)
        ensures
            r.token@ == token@,
            r.curr == 0,
    {
        Parser { token, curr: 0 }
    }

    /// Parses statements from the current token up to the end token.
    #[verifier::rlimit(100)]
    pub fn parse(&mut self) -> (r: Result<Program, ParseError>)
        ensures
            final(self).token == old(self).token,
            match r {
                Ok(p) => parse_from(old(self).token@, old(self).curr as int, Seq::empty()) == Ok::<
                    Seq<Stmt>,
                    ParseError,
                >(p.view()),
                Err(e) => parse_from(old(self).token@, old(self).curr as int, Seq::empty()) == Err::<
                    Seq<Stmt>,
                    ParseError,
                >(e),
            },
    {
        let mut stmts: Vec<Statement> = Vec::new();
        let ghost ts = self.token@;
        let ghost start = self.curr as int;
        loop
            invariant
                self.token@ == ts,
                self.token == old(self).token,
                old(self).curr as int == start,
                parse_from(ts, start, Seq::empty()) == parse_from(
                    ts,
                    self.curr as int,
                    stmts_view(stmts@),
                ),
            decreases ts.len() - self.curr,
        {
            let n = self.token.len();
            match self.kind_at(self.curr) {
                None => {
                    return Err(ParseError::FailedToReadToken);
                },
                Some(TokenKind::Eof) => {
                    return Ok(Program { statements: stmts });
                },
                Some(_) => {},
            }
            let s = match self.statement() {
                Ok(s) => s,
                Err(e) => {
                    return Err(e);
                },
            };
            proof {
                lemma_stmts_view_push(stmts@, s);
            }
            stmts.push(s);
            self.curr = self.curr + 1;
        }
    }

    fn kind_at(&self, p: usize) -> (r: Option<TokenKind>)
        ensures
            r == kind_at(self.token@, p as int),
    {
        if p < self.token.len() {
            Some(self.token[p].kind)
        } else {
            None
        }
    }

    /// The kind of the token after index `p`.
    fn kind_after(&self, p: usize) -> (r: Option<TokenKind>)
        ensures
            r == kind_at(self.token@, p + 1),
            r is Some ==> p + 1 < self.token@.len() <= usize::MAX,
    {
        let n = self.token.len();
        if p < n {
            self.kind_at(p + 1)
        } else {
            None
        }
    }

    fn expect_at(&self, p: usize, k: TokenKind) -> (r: Result<(), ParseError>)
        ensures
            r == expect_at(self.token@, p as int, k),
            r is Ok ==> p + 1 < self.token@.len(),
    {
        match self.kind_after(p) {
            None => Err(ParseError::FailedToReadToken),
            Some(found) => if found == k {
                Ok(())
            } else {
                Err(ParseError::InvalidTokenFound(k, found))
            },
        }
    }

    fn optional_semicolon(&self, p: usize) -> (r: Result<usize, ParseError>)
        ensures
            match r {
                Ok(end) => optional_semicolon(self.token@, p as int) == Ok::<int, ParseError>(
                    end as int,
                ) && p <= end < self.token@.len(),
                Err(e) => optional_semicolon(self.token@, p as int) == Err::<int, ParseError>(e),
            },
    {
        match self.kind_after(p) {
            None => Err(ParseError::FailedToReadToken),
            Some(TokenKind::Semicolon) => Ok(p + 1),
            Some(_) => Ok(p),
        }
    }

    fn identifier_at(&self, p: usize) -> (r: Result<Identifier, ParseError>)
        ensures
            match r {
                Ok(i) => parse_identifier(self.token@, p as int) == Ok::<Seq<char>, ParseError>(
                    i.name@,
                ) && p < self.token@.len(),
                Err(e) => parse_identifier(self.token@, p as int) == Err::<Seq<char>, ParseError>(
                    e,
                ),
            },
    {
        match self.kind_at(p) {
            None => Err(ParseError::FailedToReadToken),
            Some(TokenKind::Ident) => Ok(Identifier::new(self.token[p].literal.clone())),
            Some(k) => Err(ParseError::InvalidTokenFound(TokenKind::Ident, k)),
        }
    }

    fn statement(&mut self) -> (r: Result<Statement, ParseError>)
        ensures
            final(self).token == old(self).token,
            ok_stmt(r, parse_statement(old(self).token@, old(self).curr as int), final(self).curr as int),
            r is Ok ==> old(self).curr <= final(self).curr < old(self).token@.len(),
        decreases old(self).token@.len() - old(self).curr, 4int,
    {
        match self.kind_at(self.curr) {
            None => Err(ParseError::FailedToReadToken),
            Some(TokenKind::Let) => self.let_statement(),
            Some(TokenKind::Return) => self.ret_statement(),
            Some(_) => self.exp_statement(),
        }
    }

    fn let_statement(&mut self) -> (r: Result<Statement, ParseError>)
        ensures
            final(self).token == old(self).token,
            ok_stmt(r, parse_let(old(self).token@, old(self).curr as int), final(self).curr as int),
            r is Ok ==> old(self).curr <= final(self).curr < old(self).token@.len(),
        decreases old(self).token@.len() - old(self).curr, 3int,
    {
        let p = self.curr;
        if p >= self.token.len() {
            return Err(ParseError::FailedToReadToken);
        }
        match self.expect_at(p, TokenKind::Ident) {
            Err(e) => {
                return Err(e);
            },
            Ok(_) => {},
        }
        match self.expect_at(p + 1, TokenKind::Assign) {
            Err(e) => {
                return Err(e);
            },
            Ok(_) => {},
        }
        let name = self.token[p + 1].literal.clone();
        self.curr = p + 3;
        let e = match self.expression(PriorityOrder::Lowest) {
            Err(e) => {
                return Err(e);
            },
            Ok(e) => e,
        };
        match self.optional_semicolon(self.curr) {
            Err(err) => Err(err),
            Ok(end) => {
                self.curr = end;
                Ok(Statement::Let(LetStatement::new(Identifier::new(name), e)))
            },
        }
    }

    fn ret_statement(&mut self) -> (r: Result<Statement, ParseError>)
        ensures
            final(self).token == old(self).token,
            ok_stmt(r, parse_return(old(self).token@, old(self).curr as int), final(self).curr as int),
            r is Ok ==> old(self).curr <= final(self).curr < old(self).token@.len(),
        decreases old(self).token@.len() - old(self).curr, 3int,
    {
        let p = self.curr;
        if p >= self.token.len() {
            return Err(ParseError::FailedToReadToken);
        }
        self.curr = p + 1;
        let e = match self.expression(PriorityOrder::Lowest) {
            Err(e) => {
                return Err(e);
            },
            Ok(e) => e,
        };
        match self.optional_semicolon(self.curr) {
            Err(err) => Err(err),
            Ok(end) => {
                self.curr = end;
                Ok(Statement::Ret(RetStatement::new(e)))
            },
        }
    }

    fn exp_statement(&mut self) -> (r: Result<Statement, ParseError>)
        ensures
            final(self).token == old(self).token,
            ok_stmt(r, parse_expression_statement(old(self).token@, old(self).curr as int), final(self).curr as int),
            r is Ok ==> old(self).curr <= final(self).curr < old(self).token@.len(),
        decreases old(self).token@.len() - old(self).curr, 3int,
    {
        let p = self.curr;
        if p >= self.token.len() {
            return Err(ParseError::FailedToReadToken);
        }
        let e = match self.expression(PriorityOrder::Lowest) {
            Err(e) => {
                return Err(e);
            },
            Ok(e) => e,
        };
        match self.optional_semicolon(self.curr) {
            Err(err) => Err(err),
            Ok(end) => {
                self.curr = end;
                Ok(Statement::Exp(ExpStatement::new(e)))
            },
        }
    }

    fn block(&mut self) -> (r: Result<Vec<Statement>, ParseError>)
        ensures
            final(self).token == old(self).token,
            ok_stmts(r, parse_block(old(self).token@, old(self).curr as int), final(self).curr as int),
            r is Ok ==> old(self).curr < final(self).curr < old(self).token@.len(),
        decreases old(self).token@.len() - old(self).curr, 1int,
    {
        let p = self.curr;
        if p >= self.token.len() {
            return Err(ParseError::FailedToReadToken);
        }
        self.curr = p + 1;
        let acc: Vec<Statement> = Vec::new();
        assert(stmts_view(acc@) =~= Seq::<Stmt>::empty());
        self.block_from(acc)
    }

    #[verifier::rlimit(100)]
    fn block_from(&mut self, acc: Vec<Statement>) -> (r: Result<Vec<Statement>, ParseError>)
        ensures
            final(self).token == old(self).token,
            ok_stmts(
                r,
                parse_block_from(old(self).token@, old(self).curr as int, stmts_view(acc@)),
                final(self).curr as int,
            ),
            r is Ok ==> old(self).curr <= final(self).curr < old(self).token@.len(),
        decreases old(self).token@.len() - old(self).curr, 5int,
    {
        let p = self.curr;
        match self.kind_at(p) {
            None => Err(ParseError::FailedToReadToken),
            Some(TokenKind::RCurlyBracket) => Ok(acc),
            Some(_) => {
                let s = match self.statement() {
                    Err(e) => {
                        return Err(e);
                    },
                    Ok(s) => s,
                };
                let ghost acc0 = acc@;
                let mut acc = acc;
                proof {
                    lemma_stmts_view_push(acc@, s);
                }
                acc.push(s);
                let n = self.token.len();
                let e1 = self.curr;
                assert(p <= e1 < n);
                self.curr = e1 + 1;
                let r = self.block_from(acc);
                assert(parse_block_from(self.token@, p as int, stmts_view(acc0)) == parse_block_from(self.token@, e1 + 1, stmts_view(acc@)));
                r
            },
        }
    }

    /// Parses an expression from the current token whose operators bind more
    /// strongly than `order`, leaving the cursor on its last token.
    pub fn expression(&mut self, order: PriorityOrder) -> (r: Result<Expression, ParseError>)
        ensures
            final(self).token == old(self).token,
            ok_expr(r, parse_expression(old(self).token@, old(self).curr as int, order), final(self).curr as int),
            r is Ok ==> old(self).curr <= final(self).curr < old(self).token@.len(),
        decreases old(self).token@.len() - old(self).curr, 2int,
    {
        let p = self.curr;
        if p >= self.token.len() {
            return Err(ParseError::FailedToReadToken);
        }
        let left = match self.primary() {
            Err(e) => {
                return Err(e);
            },
            Ok(l) => l,
        };
        self.operators(left, order)
    }

    fn primary(&mut self) -> (r: Result<Expression, ParseError>)
        ensures
            final(self).token == old(self).token,
            ok_expr(r, parse_primary(old(self).token@, old(self).curr as int), final(self).curr as int),
            r is Ok ==> old(self).curr <= final(self).curr < old(self).token@.len(),
        decreases old(self).token@.len() - old(self).curr, 1int,
    {
        let p = self.curr;
        if p >= self.token.len() {
            return Err(ParseError::FailedToReadToken);
        }
        let kind = self.token[p].kind;
        match kind {
            TokenKind::Ident => Ok(Expression::Ident(Identifier::new(self.token[p].literal.clone()))),
            TokenKind::Int => match str_to_i64(self.token[p].literal.as_str()) {
                Some(v) => Ok(Expression::Int(Integer::new(v))),
                None => Err(ParseError::InvalidIntegerLiteral),
            },
            TokenKind::Str => Ok(
                Expression::Str(StringLiteral::new(self.token[p].literal.clone())),
            ),
            TokenKind::True => Ok(Expression::Bool(Boolean::new(true))),
            TokenKind::False => Ok(Expression::Bool(Boolean::new(false))),
            TokenKind::LParenthesis => {
                self.curr = p + 1;
                let e = match self.expression(PriorityOrder::Lowest) {
                    Err(e) => {
                        return Err(e);
                    },
                    Ok(e) => e,
                };
                let e1 = self.curr;
                match self.expect_at(e1, TokenKind::RParenthesis) {
                    Err(err) => Err(err),
                    Ok(_) => {
                        self.curr = e1 + 1;
                        Ok(e)
                    },
                }
            },
            TokenKind::Bang | TokenKind::Minus | TokenKind::Inc | TokenKind::Dec => {
                self.curr = p + 1;
                match self.expression(PriorityOrder::Prefix) {
                    Err(e) => Err(e),
                    Ok(e) => Ok(Expression::Prefix(Box::new(PrefixExpression::new(kind, e)))),
                }
            },
            TokenKind::If => self.if_expression(),
            TokenKind::Function => self.func_expression(),
            k => Err(ParseError::NoSuchExpressionStartWith(k)),
        }
    }

    fn operators(&mut self, left: Expression, order: PriorityOrder) -> (r: Result<
        Expression,
        ParseError,
    >)
        ensures
            final(self).token == old(self).token,
            ok_expr(
                r,
                parse_operators(old(self).token@, expr_view(left), old(self).curr as int, order),
                final(self).curr as int,
            ),
            r is Ok ==> old(self).curr <= final(self).curr < old(self).token@.len(),
        decreases old(self).token@.len() - old(self).curr, 0int,
    {
        let p = self.curr;
        if p >= self.token.len() {
            return Err(ParseError::FailedToReadToken);
        }
        let k = match self.kind_after(p) {
            None => {
                return Err(ParseError::FailedToReadToken);
            },
            Some(k) => k,
        };
        let next_order = token_to_order(k);
        if k == TokenKind::Semicolon || rank_of(order) >= rank_of(next_order) {
            return Ok(left);
        }
        match k {
            TokenKind::Plus | TokenKind::Minus | TokenKind::Asterisk | TokenKind::Slash
            | TokenKind::Eq | TokenKind::NotEq | TokenKind::LT | TokenKind::GT => {
                self.curr = p + 2;
                let right = match self.expression(next_order) {
                    Err(e) => {
                        return Err(e);
                    },
                    Ok(e) => e,
                };
                self.operators(
                    Expression::Infix(Box::new(InfixExpression::new(k, left, right))),
                    order,
                )
            },
            TokenKind::LParenthesis => {
                self.curr = p + 1;
                let args = match self.call_arguments() {
                    Err(e) => {
                        return Err(e);
                    },
                    Ok(a) => a,
                };
                self.operators(Expression::Call(CallExpression::new(left, args)), order)
            },
            TokenKind::Inc | TokenKind::Dec => {
                self.curr = p + 1;
                self.operators(
                    Expression::Postfix(Box::new(PostfixExpression::new(k, left))),
                    order,
                )
            },
            _ => Ok(left),
        }
    }

    fn if_expression(&mut self) -> (r: Result<Expression, ParseError>)
        ensures
            final(self).token == old(self).token,
            ok_expr(r, parse_if(old(self).token@, old(self).curr as int), final(self).curr as int),
            r is Ok ==> old(self).curr <= final(self).curr < old(self).token@.len(),
        decreases old(self).token@.len() - old(self).curr, 0int,
    {
        let p = self.curr;
        if p >= self.token.len() {
            return Err(ParseError::FailedToReadToken);
        }
        match self.expect_at(p, TokenKind::LParenthesis) {
            Err(e) => {
                return Err(e);
            },
            Ok(_) => {},
        }
        self.curr = p + 2;
        let cond = match self.expression(PriorityOrder::Lowest) {
            Err(e) => {
                return Err(e);
            },
            Ok(e) => e,
        };
        let e1 = self.curr;
        match self.expect_at(e1, TokenKind::RParenthesis) {
            Err(e) => {
                return Err(e);
            },
            Ok(_) => {},
        }
        match self.expect_at(e1 + 1, TokenKind::LCurlyBracket) {
            Err(e) => {
                return Err(e);
            },
            Ok(_) => {},
        }
        self.curr = e1 + 2;
        let cons = match self.block() {
            Err(e) => {
                return Err(e);
            },
            Ok(b) => b,
        };
        let e2 = self.curr;
        match self.kind_after(e2) {
            None => Err(ParseError::FailedToReadToken),
            Some(TokenKind::Else) => {
                match self.expect_at(e2 + 1, TokenKind::LCurlyBracket) {
                    Err(e) => {
                        return Err(e);
                    },
                    Ok(_) => {},
                }
                self.curr = e2 + 2;
                let alt = match self.block() {
                    Err(e) => {
                        return Err(e);
                    },
                    Ok(b) => b,
                };
                Ok(
                    Expression::If(
                        IfExpression::new(
                            cond,
                            BlkStatement::new(cons),
                            Some(BlkStatement::new(alt)),
                        ),
                    ),
                )
            },
            Some(_) => Ok(Expression::If(IfExpression::new(cond, BlkStatement::new(cons), None))),
        }
    }

    fn func_expression(&mut self) -> (r: Result<Expression, ParseError>)
        ensures
            final(self).token == old(self).token,
            ok_expr(r, parse_function(old(self).token@, old(self).curr as int), final(self).curr as int),
            r is Ok ==> old(self).curr <= final(self).curr < old(self).token@.len(),
        decreases old(self).token@.len() - old(self).curr, 0int,
    {
        let p = self.curr;
        if p >= self.token.len() {
            return Err(ParseError::FailedToReadToken);
        }
        match self.expect_at(p, TokenKind::LParenthesis) {
            Err(e) => {
                return Err(e);
            },
            Ok(_) => {},
        }
        self.curr = p + 1;
        let params = match self.params() {
            Err(e) => {
                return Err(e);
            },
            Ok(ps) => ps,
        };
        let e1 = self.curr;
        match self.expect_at(e1, TokenKind::LCurlyBracket) {
            Err(e) => {
                return Err(e);
            },
            Ok(_) => {},
        }
        self.curr = e1 + 1;
        let body = match self.block() {
            Err(e) => {
                return Err(e);
            },
            Ok(b) => b,
        };
        Ok(Expression::Func(FunctionExpression::new(params, BlkStatement::new(body))))
    }

    fn params(&mut self) -> (r: Result<Vec<Identifier>, ParseError>)
        ensures
            final(self).token == old(self).token,
            ok_params(r, parse_params(old(self).token@, old(self).curr as int), final(self).curr as int),
            r is Ok ==> old(self).curr < final(self).curr < old(self).token@.len(),
    {
        let p = self.curr;
        match self.kind_after(p) {
            None => Err(ParseError::FailedToReadToken),
            Some(TokenKind::RParenthesis) => {
                self.curr = p + 1;
                let r: Vec<Identifier> = Vec::new();
                assert(params_view(r@) =~= Seq::<Seq<char>>::empty());
                Ok(r)
            },
            Some(_) => {
                let name = match self.identifier_at(p + 1) {
                    Err(e) => {
                        return Err(e);
                    },
                    Ok(i) => i,
                };
                self.curr = p + 1;
                let mut acc: Vec<Identifier> = Vec::new();
                proof {
                    lemma_params_view_push(acc@, name);
                    assert(params_view(acc@) =~= Seq::<Seq<char>>::empty());
                }
                acc.push(name);
                assert(params_view(acc@) =~= seq![name.name@]);
                self.params_from(acc)
            },
        }
    }

    fn params_from(&mut self, acc: Vec<Identifier>) -> (r: Result<Vec<Identifier>, ParseError>)
        ensures
            final(self).token == old(self).token,
            ok_params(
                r,
                parse_params_from(old(self).token@, old(self).curr as int, params_view(acc@)),
                final(self).curr as int,
            ),
            r is Ok ==> old(self).curr < final(self).curr < old(self).token@.len(),
        decreases old(self).token@.len() - old(self).curr,
    {
        let p = self.curr;
        if p >= self.token.len() {
            return Err(ParseError::FailedToReadToken);
        }
        match self.kind_after(p) {
            None => Err(ParseError::FailedToReadToken),
            Some(TokenKind::Comma) => {
                let name = match self.identifier_at(p + 2) {
                    Err(e) => {
                        return Err(e);
                    },
                    Ok(i) => i,
                };
                self.curr = p + 2;
                let mut acc = acc;
                proof {
                    lemma_params_view_push(acc@, name);
                }
                acc.push(name);
                self.params_from(acc)
            },
            Some(TokenKind::RParenthesis) => {
                self.curr = p + 1;
                Ok(acc)
            },
            Some(k) => Err(ParseError::InvalidTokenFound(TokenKind::RParenthesis, k)),
        }
    }

    fn call_arguments(&mut self) -> (r: Result<Vec<Expression>, ParseError>)
        ensures
            final(self).token == old(self).token,
            ok_exprs(r, parse_call_arguments(old(self).token@, old(self).curr as int), final(self).curr as int),
            r is Ok ==> old(self).curr < final(self).curr < old(self).token@.len(),
        decreases old(self).token@.len() - old(self).curr, 1int,
    {
        let p = self.curr;
        if p >= self.token.len() {
            return Err(ParseError::FailedToReadToken);
        }
        match self.kind_after(p) {
            None => Err(ParseError::FailedToReadToken),
            Some(TokenKind::RParenthesis) => {
                self.curr = p + 1;
                let r: Vec<Expression> = Vec::new();
                assert(exprs_view(r@) =~= Seq::<Expr>::empty());
                Ok(r)
            },
            Some(_) => {
                self.curr = p + 1;
                let e = match self.expression(PriorityOrder::Lowest) {
                    Err(e) => {
                        return Err(e);
                    },
                    Ok(e) => e,
                };
                let mut acc: Vec<Expression> = Vec::new();
                proof {
                    lemma_exprs_view_push(acc@, e);
                    assert(exprs_view(acc@) =~= Seq::<Expr>::empty());
                }
                let ghost ev = expr_view(e);
                acc.push(e);
                assert(exprs_view(acc@) =~= seq![ev]);
                self.arguments_from(acc)
            },
        }
    }

    fn arguments_from(&mut self, acc: Vec<Expression>) -> (r: Result<Vec<Expression>, ParseError>)
        ensures
            final(self).token == old(self).token,
            ok_exprs(
                r,
                parse_arguments_from(old(self).token@, old(self).curr as int, exprs_view(acc@)),
                final(self).curr as int,
            ),
            r is Ok ==> old(self).curr < final(self).curr < old(self).token@.len(),
        decreases old(self).token@.len() - old(self).curr, 0int,
    {
        let p = self.curr;
        if p >= self.token.len() {
            return Err(ParseError::FailedToReadToken);
        }
        match self.kind_after(p) {
            None => Err(ParseError::FailedToReadToken),
            Some(TokenKind::Comma) => {
                self.curr = p + 2;
                let e = match self.expression(PriorityOrder::Lowest) {
                    Err(e) => {
                        return Err(e);
                    },
                    Ok(e) => e,
                };
                let mut acc = acc;
                proof {
                    lemma_exprs_view_push(acc@, e);
                }
                acc.push(e);
                self.arguments_from(acc)
            },
            Some(TokenKind::RParenthesis) => {
                self.curr = p + 1;
                Ok(acc)
            },
            Some(k) => Err(ParseError::InvalidTokenFound(TokenKind::RParenthesis, k)),
        }
    }
}

/// Parses a whole token sequence into a program.
pub fn parse_tokens(tokens: Vec<Token>) -> (r: Result<Program, ParseError>)
    ensures
        match r {
            Ok(p) => parse_program(tokens@) == Ok::<Seq<Stmt>, ParseError>(p.view()),
            Err(e) => parse_program(tokens@) == Err::<Seq<Stmt>, ParseError>(e),
        },
{
    let mut parser = Parser::new(tokens);
    parser.parse()
}

} // verus!
