use vstd::prelude::*;
use vstd::string::*;

verus! {

/// The kind of a lexical token.
#[derive(Debug, PartialEq, Eq, Clone, Copy, Structural)]
pub enum TokenKind {
    Eof,
    Ident,
    Int,
    Str,
    Assign,
    Plus,
    Minus,
    Bang,
    Asterisk,
    Slash,
    LT,
    GT,
    Comma,
    Semicolon,
    LParenthesis,
    RParenthesis,
    LCurlyBracket,
    RCurlyBracket,
    Eq,
    NotEq,
    Inc,
    Dec,
    Function,
    Let,
    True,
    False,
    If,
    Else,
    Return,
}

/// Whether tokens of this kind carry their own text (names, numbers, strings).
pub open spec fn has_literal(k: TokenKind) -> bool {
    k == TokenKind::Ident || k == TokenKind::Int || k == TokenKind::Str
}

/// The fixed source text of a token kind.
pub open spec fn kind_text(k: TokenKind) -> Seq<char> {
    match k {
        TokenKind::Eof => "eof"@,
        TokenKind::Ident => ""@,
        TokenKind::Int => ""@,
        TokenKind::Str => ""@,
        TokenKind::Assign => "="@,
        TokenKind::Plus => "+"@,
        TokenKind::Minus => "-"@,
        TokenKind::Bang => "!"@,
        TokenKind::Asterisk => "*"@,
        TokenKind::Slash => "/"@,
        TokenKind::LT => "<"@,
        TokenKind::GT => ">"@,
        TokenKind::Comma => ","@,
        TokenKind::Semicolon => ";"@,
        TokenKind::LParenthesis => "("@,
        TokenKind::RParenthesis => ")"@,
        TokenKind::LCurlyBracket => "{"@,
        TokenKind::RCurlyBracket => "}"@,
        TokenKind::Eq => "=="@,
        TokenKind::NotEq => "!="@,
        TokenKind::Inc => "++"@,
        TokenKind::Dec => "--"@,
        TokenKind::Function => "fn"@,
        TokenKind::Let => "let"@,
        TokenKind::True => "true"@,
        TokenKind::False => "false"@,
        TokenKind::If => "if"@,
        TokenKind::Else => "else"@,
        TokenKind::Return => "return"@,
    }
}

/// The fixed source text of a token kind.
pub fn kind_str(k: TokenKind) -> (r: &'static str)
    ensures
        r@ == kind_text(k),
{
    match k {
        TokenKind::Eof => "eof",
        TokenKind::Ident => "",
        TokenKind::Int => "",
        TokenKind::Str => "",
        TokenKind::Assign => "=",
        TokenKind::Plus => "+",
        TokenKind::Minus => "-",
        TokenKind::Bang => "!",
        TokenKind::Asterisk => "*",
        TokenKind::Slash => "/",
        TokenKind::LT => "<",
        TokenKind::GT => ">",
        TokenKind::Comma => ",",
        TokenKind::Semicolon => ";",
        TokenKind::LParenthesis => "(",
        TokenKind::RParenthesis => ")",
        TokenKind::LCurlyBracket => "{",
        TokenKind::RCurlyBracket => "}",
        TokenKind::Eq => "==",
        TokenKind::NotEq => "!=",
        TokenKind::Inc => "++",
        TokenKind::Dec => "--",
        TokenKind::Function => "fn",
        TokenKind::Let => "let",
        TokenKind::True => "true",
        TokenKind::False => "false",
        TokenKind::If => "if",
        TokenKind::Else => "else",
        TokenKind::Return => "return",
    }
}

/// A token: its kind and, for names, numbers and strings, its text.
#[derive(Debug, PartialEq, Eq, Clone)]
pub struct Token {
    pub kind: TokenKind,
    pub literal: String,
}

impl Token {
    /// The text a token stands for in source.
    pub open spec fn text(&self) -> Seq<char> {
        if has_literal(self.kind) {
            self.literal@
        } else {
            kind_text(self.kind)
        }
    }

    pub fn new(kind: TokenKind, literal: &str) -> (r: Token)
        ensures
            r.kind == kind,
            r.literal@ == literal@,
    {
        Token { kind, literal: String::from_str(literal) }
    }

    pub fn literal(&self) -> (r: &str)
        ensures
            r@ == self.text(),
    {
        match self.kind {
            TokenKind::Ident | TokenKind::Int | TokenKind::Str => self.literal.as_str(),
            k => kind_str(k),
        }
    }
}

} // verus!
