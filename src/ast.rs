use vstd::prelude::*;
use vstd::string::*;
use crate::text::{int_text, append_int};
use crate::token::{TokenKind, kind_text, kind_str};

verus! {

/// Nodes of the syntax tree that have a canonical source rendering.
pub trait Node {
    spec fn text(&self) -> Seq<char>;

    fn string(&self) -> (r: String)
        ensures
            r@ == self.text(),
    ;
}

/// A parsed program: its top-level statements in order.
#[derive(Debug, PartialEq, Eq)]
pub struct Program {
    pub statements: Vec<Statement>,
}

impl Program {
    pub fn new() -> (r: Program)
        ensures
            r.statements@.len() == 0,
    {
        Program { statements: Vec::new() }
    }
}

#[derive(Debug, PartialEq, Eq)]
pub enum Statement {
    Let(LetStatement),
    Ret(RetStatement),
    Exp(ExpStatement),
    Blk(BlkStatement),
}

/// `let <ident> = <rhs_exp>;`
#[derive(Debug, PartialEq, Eq)]
pub struct LetStatement {
    pub ident: Identifier,
    pub rhs_exp: Expression,
}

impl LetStatement {
    pub fn new(ident: Identifier, rhs_exp: Expression) -> (r: LetStatement)
        ensures
            r == (LetStatement { ident, rhs_exp }),
    {
        LetStatement { ident, rhs_exp }
    }
}

/// `return <exp>;`
#[derive(Debug, PartialEq, Eq)]
pub struct RetStatement {
    pub exp: Expression,
}

impl RetStatement {
    pub fn new(exp: Expression) -> (r: RetStatement)
        ensures
            r == (RetStatement { exp }),
    {
        RetStatement { exp }
    }
}

/// An expression evaluated for its value.
#[derive(Debug, PartialEq, Eq)]
pub struct ExpStatement {
    pub exp: Expression,
}

impl ExpStatement {
    pub fn new(exp: Expression) -> (r: ExpStatement)
        ensures
            r == (ExpStatement { exp }),
    {
        ExpStatement { exp }
    }
}

/// A braced sequence of statements.
#[derive(Debug, PartialEq, Eq)]
pub struct BlkStatement {
    pub statements: Vec<Statement>,
}

impl BlkStatement {
    pub fn new(statements: Vec<Statement>) -> (r: BlkStatement)
        ensures
            r == (BlkStatement { statements }),
    {
        BlkStatement { statements }
    }
}

#[derive(Debug, PartialEq, Eq)]
pub enum Expression {
    Ident(Identifier),
    Int(Integer),
    Bool(Boolean),
    Str(StringLiteral),
    Prefix(Box<PrefixExpression>),
    Infix(Box<InfixExpression>),
    Postfix(Box<PostfixExpression>),
    If(IfExpression),
    Func(FunctionExpression),
    Call(CallExpression),
}

#[derive(Debug, PartialEq, Eq, Clone)]
pub struct Identifier {
    pub name: String,
}

impl Identifier {
    pub fn new(name: String) -> (r: Identifier)
        ensures
            r == (Identifier { name }),
    {
        Identifier { name }
    }
}

#[derive(Debug, PartialEq, Eq, Clone)]
pub struct Integer {
    pub value: i64,
}

impl Integer {
    pub fn new(value: i64) -> (r: Integer)
        ensures
            r.value == value,
    {
        Integer { value }
    }
}

#[derive(Debug, PartialEq, Eq, Clone)]
pub struct Boolean {
    pub value: bool,
}

impl Boolean {
    pub fn new(value: bool) -> (r: Boolean)
        ensures
            r.value == value,
    {
        Boolean { value }
    }
}

#[derive(Debug, PartialEq, Eq, Clone)]
pub struct StringLiteral {
    pub str: String,
}

impl StringLiteral {
    pub fn new(str: String) -> (r: StringLiteral)
        ensures
            r == (StringLiteral { str }),
    {
        StringLiteral { str }
    }
}

/// `<operator><rhs_exp>`
#[derive(Debug, PartialEq, Eq)]
pub struct PrefixExpression {
    pub operator: TokenKind,
    pub rhs_exp: Expression,
}

impl PrefixExpression {
    pub fn new(operator: TokenKind, rhs_exp: Expression) -> (r: PrefixExpression)
        ensures
            r == (PrefixExpression { operator, rhs_exp }),
    {
        PrefixExpression { operator, rhs_exp }
    }
}

/// `<lhs_exp> <operator> <rhs_exp>`
#[derive(Debug, PartialEq, Eq)]
pub struct InfixExpression {
    pub operator: TokenKind,
    pub lhs_exp: Expression,
    pub rhs_exp: Expression,
}

impl InfixExpression {
    pub fn new(operator: TokenKind, lhs_exp: Expression, rhs_exp: Expression) -> (r:
        InfixExpression)
        ensures
            r == (InfixExpression { operator, lhs_exp, rhs_exp }),
    {
        InfixExpression { operator, lhs_exp, rhs_exp }
    }
}

/// `<lhs_exp><operator>`
#[derive(Debug, PartialEq, Eq)]
pub struct PostfixExpression {
    pub operator: TokenKind,
    pub lhs_exp: Expression,
}

impl PostfixExpression {
    pub fn new(operator: TokenKind, lhs_exp: Expression) -> (r: PostfixExpression)
        ensures
            r == (PostfixExpression { operator, lhs_exp }),
    {
        PostfixExpression { operator, lhs_exp }
    }
}

/// `if (<condition>) { <consequence> } else { <alternative> }`
#[derive(Debug, PartialEq, Eq)]
pub struct IfExpression {
    pub condition: Box<Expression>,
    pub consequence: BlkStatement,
    pub alternative: Option<BlkStatement>,
}

impl IfExpression {
    pub fn new(cond: Expression, cons: BlkStatement, alt: Option<BlkStatement>) -> (r:
        IfExpression)
        ensures
            *r.condition == cond,
            r.consequence == cons,
            r.alternative == alt,
    {
        IfExpression { condition: Box::new(cond), consequence: cons, alternative: alt }
    }
}

/// `fn(<params>) { <body> }`
#[derive(Debug, PartialEq, Eq)]
pub struct FunctionExpression {
    pub params: Vec<Identifier>,
    pub body: BlkStatement,
}

impl FunctionExpression {
    pub fn new(params: Vec<Identifier>, body: BlkStatement) -> (r: FunctionExpression)
        ensures
            r == (FunctionExpression { params, body }),
    {
        FunctionExpression { params, body }
    }
}

/// `<ident>(<args>)`
#[derive(Debug, PartialEq, Eq)]
pub struct CallExpression {
    pub ident: Box<Expression>,
    pub args: Vec<Expression>,
}

impl CallExpression {
    pub fn new(ident: Expression, args: Vec<Expression>) -> (r: CallExpression)
        ensures
            *r.ident == ident,
            r.args == args,
    {
        CallExpression { ident: Box::new(ident), args }
    }
}

/// The abstract syntax of an expression, as a mathematical value.
pub enum Expr {
    Ident(Seq<char>),
    Int(i64),
    Bool(bool),
    Str(Seq<char>),
    Prefix(TokenKind, Box<Expr>),
    Infix(TokenKind, Box<Expr>, Box<Expr>),
    Postfix(TokenKind, Box<Expr>),
    If(Box<Expr>, Seq<Stmt>, Option<Seq<Stmt>>),
    Func(Seq<Seq<char>>, Seq<Stmt>),
    Call(Box<Expr>, Seq<Expr>),
}

/// The abstract syntax of a statement, as a mathematical value.
pub enum Stmt {
    Let(Seq<char>, Expr),
    Ret(Expr),
    Exp(Expr),
    Blk(Seq<Stmt>),
}

/// The names of a parameter list.
pub open spec fn params_view(ps: Seq<Identifier>) -> Seq<Seq<char>>
    decreases ps.len(),
{
    if ps.len() == 0 {
        Seq::empty()
    } else {
        params_view(ps.drop_last()).push(ps.last().name@)
    }
}

/// An expression as abstract syntax.
pub open spec fn expr_view(e: Expression) -> Expr
    decreases e,
{
    match e {
        Expression::Ident(i) => Expr::Ident(i.name@),
        Expression::Int(n) => Expr::Int(n.value),
        Expression::Bool(b) => Expr::Bool(b.value),
        Expression::Str(s) => Expr::Str(s.str@),
        Expression::Prefix(p) => Expr::Prefix(p.operator, Box::new(expr_view(p.rhs_exp))),
        Expression::Infix(p) => Expr::Infix(
            p.operator,
            Box::new(expr_view(p.lhs_exp)),
            Box::new(expr_view(p.rhs_exp)),
        ),
        Expression::Postfix(p) => Expr::Postfix(p.operator, Box::new(expr_view(p.lhs_exp))),
        Expression::If(f) => Expr::If(
            Box::new(expr_view(*f.condition)),
            stmts_view(f.consequence.statements@),
            match f.alternative {
                Some(alt) => Some(stmts_view(alt.statements@)),
                None => None,
            },
        ),
        Expression::Func(f) => Expr::Func(params_view(f.params@), stmts_view(f.body.statements@)),
        Expression::Call(c) => Expr::Call(Box::new(expr_view(*c.ident)), exprs_view(c.args@)),
    }
}

/// A list of expressions as abstract syntax.
pub open spec fn exprs_view(es: Seq<Expression>) -> Seq<Expr>
    decreases es,
{
    if es.len() == 0 {
        Seq::empty()
    } else {
        exprs_view(es.drop_last()).push(expr_view(es.last()))
    }
}

/// A statement as abstract syntax.
pub open spec fn stmt_view(s: Statement) -> Stmt
    decreases s,
{
    match s {
        Statement::Let(l) => Stmt::Let(l.ident.name@, expr_view(l.rhs_exp)),
        Statement::Ret(r) => Stmt::Ret(expr_view(r.exp)),
        Statement::Exp(x) => Stmt::Exp(expr_view(x.exp)),
        Statement::Blk(b) => Stmt::Blk(stmts_view(b.statements@)),
    }
}

/// A list of statements as abstract syntax.
pub open spec fn stmts_view(ss: Seq<Statement>) -> Seq<Stmt>
    decreases ss,
{
    if ss.len() == 0 {
        Seq::empty()
    } else {
        stmts_view(ss.drop_last()).push(stmt_view(ss.last()))
    }
}

impl Program {
    /// The program's statements as abstract syntax.
    pub open spec fn view(&self) -> Seq<Stmt> {
        stmts_view(self.statements@)
    }
}

impl BlkStatement {
    /// The block's statements as abstract syntax.
    pub open spec fn view(&self) -> Seq<Stmt> {
        stmts_view(self.statements@)
    }
}

/// Taking one more parameter extends the list of names by its name.
pub proof fn lemma_params_view_take(ps: Seq<Identifier>, i: int)
    requires
        0 <= i < ps.len(),
    ensures
        params_view(ps.take(i + 1)) == params_view(ps.take(i)).push(ps[i].name@),
{
    assert(ps.take(i + 1).drop_last() =~= ps.take(i));
}

/// The list of names has one entry per parameter, in order.
pub proof fn lemma_params_view_index(ps: Seq<Identifier>)
    ensures
        params_view(ps).len() == ps.len(),
        forall|k: int| 0 <= k < ps.len() ==> #[trigger] params_view(ps)[k] == ps[k].name@,
    decreases ps.len(),
{
    if ps.len() > 0 {
        lemma_params_view_index(ps.drop_last());
    }
}

/// Appending a statement appends its view.
pub proof fn lemma_stmts_view_push(ss: Seq<Statement>, x: Statement)
    ensures
        stmts_view(ss.push(x)) == stmts_view(ss).push(stmt_view(x)),
{
    assert(ss.push(x).drop_last() =~= ss);
}

/// Appending an expression appends its view.
pub proof fn lemma_exprs_view_push(es: Seq<Expression>, x: Expression)
    ensures
        exprs_view(es.push(x)) == exprs_view(es).push(expr_view(x)),
{
    assert(es.push(x).drop_last() =~= es);
}

/// Appending a parameter appends its name.
pub proof fn lemma_params_view_push(ps: Seq<Identifier>, x: Identifier)
    ensures
        params_view(ps.push(x)) == params_view(ps).push(x.name@),
{
    assert(ps.push(x).drop_last() =~= ps);
}

/// Taking one more element of a sequence of expressions extends its view by that element.
pub proof fn lemma_exprs_view_take(es: Seq<Expression>, i: int)
    requires
        0 <= i < es.len(),
    ensures
        exprs_view(es.take(i + 1)) == exprs_view(es.take(i)).push(expr_view(es[i])),
{
    assert(es.take(i + 1).drop_last() =~= es.take(i));
}

/// Taking one more element of a sequence of statements extends its view by that element.
pub proof fn lemma_stmts_view_take(ss: Seq<Statement>, i: int)
    requires
        0 <= i < ss.len(),
    ensures
        stmts_view(ss.take(i + 1)) == stmts_view(ss.take(i)).push(stmt_view(ss[i])),
{
    assert(ss.take(i + 1).drop_last() =~= ss.take(i));
}

/// The view of a sequence of expressions has the same length, element by element.
pub proof fn lemma_exprs_view_index(es: Seq<Expression>)
    ensures
        exprs_view(es).len() == es.len(),
        forall|k: int| 0 <= k < es.len() ==> #[trigger] exprs_view(es)[k] == expr_view(es[k]),
    decreases es.len(),
{
    if es.len() > 0 {
        lemma_exprs_view_index(es.drop_last());
    }
}

/// The view of a sequence of statements has the same length, element by element.
pub proof fn lemma_stmts_view_index(ss: Seq<Statement>)
    ensures
        stmts_view(ss).len() == ss.len(),
        forall|k: int| 0 <= k < ss.len() ==> #[trigger] stmts_view(ss)[k] == stmt_view(ss[k]),
    decreases ss.len(),
{
    if ss.len() > 0 {
        lemma_stmts_view_index(ss.drop_last());
    }
}

/// Parameter names joined by `", "`.
pub open spec fn params_text(ps: Seq<Seq<char>>) -> Seq<char>
    decreases ps.len(),
{
    if ps.len() == 0 {
        Seq::empty()
    } else if ps.len() == 1 {
        ps[0]
    } else {
        params_text(ps.drop_last()) + ", "@ + ps.last()
    }
}

/// Canonical rendering of an expression: operators fully parenthesized.
pub open spec fn expr_text(e: Expr) -> Seq<char>
    decreases e,
{
    match e {
        Expr::Ident(name) => name,
        Expr::Int(n) => int_text(n as int),
        Expr::Bool(b) => if b {
            "true"@
        } else {
            "false"@
        },
        Expr::Str(s) => "\""@ + s + "\""@,
        Expr::Prefix(op, rhs) => "("@ + kind_text(op) + expr_text(*rhs) + ")"@,
        Expr::Infix(op, lhs, rhs) => "("@ + expr_text(*lhs) + " "@ + kind_text(op) + " "@ + expr_text(
            *rhs,
        ) + ")"@,
        Expr::Postfix(op, lhs) => "("@ + expr_text(*lhs) + kind_text(op) + ")"@,
        Expr::If(cond, cons, alt) => {
            let head = "if ( "@ + expr_text(*cond) + " ) { "@ + stmts_text(cons) + " }"@;
            match alt {
                Some(alt) => head + " else { "@ + stmts_text(alt) + " }"@,
                None => head,
            }
        },
        Expr::Func(params, body) => "fn("@ + params_text(params) + ") { "@ + stmts_text(body)
            + " }"@,
        Expr::Call(callee, args) => expr_text(*callee) + "("@ + exprs_text(args) + ")"@,
    }
}

/// Expressions rendered and joined by `", "`.
pub open spec fn exprs_text(es: Seq<Expr>) -> Seq<char>
    decreases es,
{
    if es.len() == 0 {
        Seq::empty()
    } else if es.len() == 1 {
        expr_text(es[0])
    } else {
        exprs_text(es.drop_last()) + ", "@ + expr_text(es.last())
    }
}

/// Canonical rendering of a statement.
pub open spec fn stmt_text(s: Stmt) -> Seq<char>
    decreases s,
{
    match s {
        Stmt::Let(name, rhs) => "let "@ + name + " = "@ + expr_text(rhs) + ";"@,
        Stmt::Ret(e) => "return "@ + expr_text(e) + ";"@,
        Stmt::Exp(e) => expr_text(e),
        Stmt::Blk(ss) => stmts_text(ss),
    }
}

/// What separates a statement from the next one: an expression statement
/// gets its `;` back, so that it cannot run into what follows.
pub open spec fn stmt_sep(s: Stmt) -> Seq<char> {
    if s is Exp {
        "; "@
    } else {
        " "@
    }
}

/// Statements rendered in order, each followed by its separator but the last.
pub open spec fn stmts_text(ss: Seq<Stmt>) -> Seq<char>
    decreases ss,
{
    if ss.len() == 0 {
        Seq::empty()
    } else if ss.len() == 1 {
        stmt_text(ss[0])
    } else {
        stmts_text(ss.drop_last()) + stmt_sep(ss[ss.len() - 2]) + stmt_text(ss.last())
    }
}

/// Appends the rendering of `e` to `out`.
pub(crate) fn push_expr(out: &mut String, e: &Expression)
    ensures
        final(out)@ == old(out)@ + expr_text(expr_view(*e)),
    decreases e,
{
    match e {
        Expression::Ident(i) => {
            out.append(i.name.as_str());
        },
        Expression::Int(n) => {
            append_int(out, n.value);
        },
        Expression::Bool(b) => {
            if b.value {
                out.append("true");
            } else {
                out.append("false");
            }
        },
        Expression::Str(s) => {
            out.append("\"");
            out.append(s.str.as_str());
            out.append("\"");
        },
        Expression::Prefix(p) => {
            out.append("(");
            out.append(kind_str(p.operator));
            push_expr(out, &p.rhs_exp);
            out.append(")");
        },
        Expression::Infix(p) => {
            out.append("(");
            push_expr(out, &p.lhs_exp);
            out.append(" ");
            out.append(kind_str(p.operator));
            out.append(" ");
            push_expr(out, &p.rhs_exp);
            out.append(")");
        },
        Expression::Postfix(p) => {
            out.append("(");
            push_expr(out, &p.lhs_exp);
            out.append(kind_str(p.operator));
            out.append(")");
        },
        Expression::If(f) => {
            out.append("if ( ");
            push_expr(out, &f.condition);
            out.append(" ) { ");
            push_stmts(out, &f.consequence.statements);
            out.append(" }");
            match &f.alternative {
                Some(alt) => {
                    out.append(" else { ");
                    push_stmts(out, &alt.statements);
                    out.append(" }");
                },
                None => {},
            }
        },
        Expression::Func(f) => {
            out.append("fn(");
            push_params(out, &f.params);
            out.append(") { ");
            push_stmts(out, &f.body.statements);
            out.append(" }");
        },
        Expression::Call(c) => {
            push_expr(out, &c.ident);
            out.append("(");
            push_exprs(out, &c.args);
            out.append(")");
        },
    }
    assert(final(out)@ =~= old(out)@ + expr_text(expr_view(*e)));
}

pub(crate) fn push_params(out: &mut String, ps: &Vec<Identifier>)
    ensures
        final(out)@ == old(out)@ + params_text(params_view(ps@)),
{
    let ghost start = out@;
    let mut i: usize = 0;
    while i < ps.len()
        invariant
            i <= ps@.len(),
            out@ == start + params_text(params_view(ps@.take(i as int))),
        decreases ps@.len() - i,
    {
        if i > 0 {
            out.append(", ");
        }
        out.append(ps[i].name.as_str());
        proof {
            lemma_params_view_take(ps@, i as int);
            let v = params_view(ps@.take(i as int + 1));
            assert(v.drop_last() =~= params_view(ps@.take(i as int)));
        }
        i = i + 1;
        assert(out@ =~= start + params_text(params_view(ps@.take(i as int))));
    }
    assert(ps@.take(i as int) =~= ps@);
}

fn push_exprs(out: &mut String, es: &Vec<Expression>)
    ensures
        final(out)@ == old(out)@ + exprs_text(exprs_view(es@)),
    decreases es,
{
    let ghost start = out@;
    let mut i: usize = 0;
    while i < es.len()
        invariant
            i <= es@.len(),
            out@ == start + exprs_text(exprs_view(es@.take(i as int))),
        decreases es@.len() - i,
    {
        if i > 0 {
            out.append(", ");
        }
        push_expr(out, &es[i]);
        proof {
            lemma_exprs_view_take(es@, i as int);
            let v = exprs_view(es@.take(i as int + 1));
            assert(v.drop_last() =~= exprs_view(es@.take(i as int)));
        }
        i = i + 1;
        assert(out@ =~= start + exprs_text(exprs_view(es@.take(i as int))));
    }
    assert(es@.take(i as int) =~= es@);
}

fn push_stmt(out: &mut String, s: &Statement)
    ensures
        final(out)@ == old(out)@ + stmt_text(stmt_view(*s)),
    decreases s,
{
    match s {
        Statement::Let(l) => {
            out.append("let ");
            out.append(l.ident.name.as_str());
            out.append(" = ");
            push_expr(out, &l.rhs_exp);
            out.append(";");
        },
        Statement::Ret(r) => {
            out.append("return ");
            push_expr(out, &r.exp);
            out.append(";");
        },
        Statement::Exp(x) => {
            push_expr(out, &x.exp);
        },
        Statement::Blk(b) => {
            push_stmts(out, &b.statements);
        },
    }
    assert(final(out)@ =~= old(out)@ + stmt_text(stmt_view(*s)));
}

pub(crate) fn push_stmts(out: &mut String, ss: &Vec<Statement>)
    ensures
        final(out)@ == old(out)@ + stmts_text(stmts_view(ss@)),
    decreases ss,
{
    let ghost start = out@;
    let mut i: usize = 0;
    while i < ss.len()
        invariant
            i <= ss@.len(),
            out@ == start + stmts_text(stmts_view(ss@.take(i as int))),
        decreases ss@.len() - i,
    {
        if i > 0 {
            match &ss[i - 1] {
                Statement::Exp(_) => out.append("; "),
                _ => out.append(" "),
            }
        }
        push_stmt(out, &ss[i]);
        proof {
            lemma_stmts_view_index(ss@.take(i as int + 1));
            lemma_stmts_view_take(ss@, i as int);
            let v = stmts_view(ss@.take(i as int + 1));
            assert(v.drop_last() =~= stmts_view(ss@.take(i as int)));
        }
        i = i + 1;
        assert(out@ =~= start + stmts_text(stmts_view(ss@.take(i as int))));
    }
    assert(ss@.take(i as int) =~= ss@);
}

impl Node for Expression {
    open spec fn text(&self) -> Seq<char> {
        expr_text(expr_view(*self))
    }

    fn string(&self) -> (r: String) {
        let mut r = String::new();
        push_expr(&mut r, self);
        assert(r@ =~= expr_text(expr_view(*self)));
        r
    }
}

impl Node for Statement {
    open spec fn text(&self) -> Seq<char> {
        stmt_text(stmt_view(*self))
    }

    fn string(&self) -> (r: String) {
        let mut r = String::new();
        push_stmt(&mut r, self);
        assert(r@ =~= stmt_text(stmt_view(*self)));
        r
    }
}

impl Node for BlkStatement {
    open spec fn text(&self) -> Seq<char> {
        stmts_text(stmts_view(self.statements@))
    }

    fn string(&self) -> (r: String) {
        let mut r = String::new();
        push_stmts(&mut r, &self.statements);
        assert(r@ =~= stmts_text(stmts_view(self.statements@)));
        r
    }
}

impl Node for Program {
    open spec fn text(&self) -> Seq<char> {
        stmts_text(stmts_view(self.statements@))
    }

    fn string(&self) -> (r: String) {
        let mut r = String::new();
        push_stmts(&mut r, &self.statements);
        assert(r@ =~= stmts_text(stmts_view(self.statements@)));
        r
    }
}

/// A copy of an identifier.
pub fn copy_ident(i: &Identifier) -> (r: Identifier)
    ensures
        r == *i,
{
    Identifier { name: i.name.clone() }
}

/// A copy of a parameter list.
pub fn copy_params(ps: &Vec<Identifier>) -> (r: Vec<Identifier>)
    ensures
        r@ == ps@,
{
    let mut r: Vec<Identifier> = Vec::new();
    let mut i: usize = 0;
    while i < ps.len()
        invariant
            i <= ps@.len(),
            r@ == ps@.take(i as int),
        decreases ps@.len() - i,
    {
        r.push(copy_ident(&ps[i]));
        i = i + 1;
        assert(r@ =~= ps@.take(i as int));
    }
    assert(ps@.take(i as int) =~= ps@);
    r
}

/// A deep copy of a block.
pub fn copy_block(b: &BlkStatement) -> (r: BlkStatement)
    ensures
        r.view() == b.view(),
    decreases b,
{
    let mut r: Vec<Statement> = Vec::new();
    let mut i: usize = 0;
    while i < b.statements.len()
        invariant
            i <= b.statements@.len(),
            r@.len() == i,
            stmts_view(r@) == stmts_view(b.statements@.take(i as int)),
        decreases b.statements@.len() - i,
    {
        let c = copy_stmt(&b.statements[i]);
        proof {
            lemma_stmts_view_take(b.statements@, i as int);
        }
        let ghost old_r = r@;
        r.push(c);
        assert(r@.drop_last() =~= old_r);
        i = i + 1;
    }
    assert(b.statements@.take(i as int) =~= b.statements@);
    BlkStatement { statements: r }
}

/// A deep copy of a statement.
pub fn copy_stmt(s: &Statement) -> (r: Statement)
    ensures
        stmt_view(r) == stmt_view(*s),
    decreases s,
{
    match s {
        Statement::Let(l) => Statement::Let(
            LetStatement { ident: copy_ident(&l.ident), rhs_exp: copy_expr(&l.rhs_exp) },
        ),
        Statement::Ret(x) => Statement::Ret(RetStatement { exp: copy_expr(&x.exp) }),
        Statement::Exp(x) => Statement::Exp(ExpStatement { exp: copy_expr(&x.exp) }),
        Statement::Blk(b) => Statement::Blk(copy_block(b)),
    }
}

fn copy_exprs(es: &Vec<Expression>) -> (r: Vec<Expression>)
    ensures
        exprs_view(r@) == exprs_view(es@),
    decreases es,
{
    let mut r: Vec<Expression> = Vec::new();
    let mut i: usize = 0;
    while i < es.len()
        invariant
            i <= es@.len(),
            r@.len() == i,
            exprs_view(r@) == exprs_view(es@.take(i as int)),
        decreases es@.len() - i,
    {
        let c = copy_expr(&es[i]);
        proof {
            lemma_exprs_view_take(es@, i as int);
        }
        let ghost old_r = r@;
        r.push(c);
        assert(r@.drop_last() =~= old_r);
        i = i + 1;
    }
    assert(es@.take(i as int) =~= es@);
    r
}

/// A deep copy of an expression.
pub fn copy_expr(e: &Expression) -> (r: Expression)
    ensures
        expr_view(r) == expr_view(*e),
    decreases e,
{
    match e {
        Expression::Ident(i) => Expression::Ident(copy_ident(i)),
        Expression::Int(n) => Expression::Int(Integer { value: n.value }),
        Expression::Bool(b) => Expression::Bool(Boolean { value: b.value }),
        Expression::Str(s) => Expression::Str(StringLiteral { str: s.str.clone() }),
        Expression::Prefix(p) => Expression::Prefix(
            Box::new(PrefixExpression { operator: p.operator, rhs_exp: copy_expr(&p.rhs_exp) }),
        ),
        Expression::Infix(p) => Expression::Infix(
            Box::new(
                InfixExpression {
                    operator: p.operator,
                    lhs_exp: copy_expr(&p.lhs_exp),
                    rhs_exp: copy_expr(&p.rhs_exp),
                },
            ),
        ),
        Expression::Postfix(p) => Expression::Postfix(
            Box::new(PostfixExpression { operator: p.operator, lhs_exp: copy_expr(&p.lhs_exp) }),
        ),
        Expression::If(f) => {
            let alternative = match &f.alternative {
                Some(alt) => Some(copy_block(alt)),
                None => None,
            };
            Expression::If(
                IfExpression {
                    condition: Box::new(copy_expr(&f.condition)),
                    consequence: copy_block(&f.consequence),
                    alternative,
                },
            )
        },
        Expression::Func(f) => Expression::Func(
            FunctionExpression { params: copy_params(&f.params), body: copy_block(&f.body) },
        ),
        Expression::Call(c) => Expression::Call(
            CallExpression { ident: Box::new(copy_expr(&c.ident)), args: copy_exprs(&c.args) },
        ),
    }
}

} // verus!
