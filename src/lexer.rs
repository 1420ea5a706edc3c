use vstd::prelude::*;
use vstd::string::*;
use crate::text::{chars_of, string_of};
use crate::token::{Token, TokenKind};

verus! {

/// Unicode `White_Space` characters.
pub open spec fn is_space(c: char) -> bool {
    let u = c as u32;
    (0x9 <= u <= 0xD) || u == 0x20 || u == 0x85 || u == 0xA0 || u == 0x1680 || (0x2000 <= u
        <= 0x200A) || u == 0x2028 || u == 0x2029 || u == 0x202F || u == 0x205F || u == 0x3000
}

pub open spec fn is_alpha(c: char) -> bool {
    ('a' <= c <= 'z') || ('A' <= c <= 'Z')
}

pub open spec fn is_digit(c: char) -> bool {
    '0' <= c <= '9'
}

pub open spec fn is_ident_char(c: char) -> bool {
    is_alpha(c) || is_digit(c) || c == '_'
}

/// The first index at or after `i` that does not hold whitespace.
pub open spec fn skip_space(s: Seq<char>, i: int) -> int
    decreases s.len() - i,
{
    if 0 <= i < s.len() && is_space(s[i]) {
        skip_space(s, i + 1)
    } else {
        i
    }
}

/// The first index at or after `i` whose character fails `is_ident_char`.
pub open spec fn ident_end(s: Seq<char>, i: int) -> int
    decreases s.len() - i,
{
    if 0 <= i < s.len() && is_ident_char(s[i]) {
        ident_end(s, i + 1)
    } else {
        i
    }
}

/// The first index at or after `i` that does not hold a digit.
pub open spec fn digit_end(s: Seq<char>, i: int) -> int
    decreases s.len() - i,
{
    if 0 <= i < s.len() && is_digit(s[i]) {
        digit_end(s, i + 1)
    } else {
        i
    }
}

/// The first index at or after `i` that holds `"`, or the end.
pub open spec fn quote_end(s: Seq<char>, i: int) -> int
    decreases s.len() - i,
{
    if 0 <= i < s.len() && s[i] != '"' {
        quote_end(s, i + 1)
    } else {
        i
    }
}

/// `w` spells the lower-case keyword `k`, letters in either case.
pub open spec fn spells(w: Seq<char>, k: Seq<char>) -> bool {
    w.len() == k.len() && forall|i: int|
        0 <= i < w.len() ==> (#[trigger] w[i] == k[i] || ('A' <= w[i] <= 'Z' && w[i] as u32 + 32
            == k[i] as u32))
}

pub open spec fn keyword(w: Seq<char>) -> Option<TokenKind> {
    if spells(w, "fn"@) {
        Some(TokenKind::Function)
    } else if spells(w, "let"@) {
        Some(TokenKind::Let)
    } else if spells(w, "true"@) {
        Some(TokenKind::True)
    } else if spells(w, "false"@) {
        Some(TokenKind::False)
    } else if spells(w, "if"@) {
        Some(TokenKind::If)
    } else if spells(w, "else"@) {
        Some(TokenKind::Else)
    } else if spells(w, "return"@) {
        Some(TokenKind::Return)
    } else {
        None
    }
}

/// A one- or two-character operator starting with `c`, given the next character.
pub open spec fn pair_token(c: char, next: char) -> Option<(TokenKind, int)> {
    if c == '=' {
        Some(if next == '=' { (TokenKind::Eq, 2) } else { (TokenKind::Assign, 1) })
    } else if c == '!' {
        Some(if next == '=' { (TokenKind::NotEq, 2) } else { (TokenKind::Bang, 1) })
    } else if c == '+' {
        Some(if next == '+' { (TokenKind::Inc, 2) } else { (TokenKind::Plus, 1) })
    } else if c == '-' {
        Some(if next == '-' { (TokenKind::Dec, 2) } else { (TokenKind::Minus, 1) })
    } else {
        None
    }
}

pub open spec fn single_token(c: char) -> Option<TokenKind> {
    if c == '*' {
        Some(TokenKind::Asterisk)
    } else if c == '/' {
        Some(TokenKind::Slash)
    } else if c == '<' {
        Some(TokenKind::LT)
    } else if c == '>' {
        Some(TokenKind::GT)
    } else if c == ',' {
        Some(TokenKind::Comma)
    } else if c == ';' {
        Some(TokenKind::Semicolon)
    } else if c == '(' {
        Some(TokenKind::LParenthesis)
    } else if c == ')' {
        Some(TokenKind::RParenthesis)
    } else if c == '{' {
        Some(TokenKind::LCurlyBracket)
    } else if c == '}' {
        Some(TokenKind::RCurlyBracket)
    } else {
        None
    }
}

/// The token that starts at index `i` (not whitespace): its kind, its text
/// and the index after it. `None` where no token starts, which ends the input.
pub open spec fn token_at(s: Seq<char>, i: int) -> Option<(TokenKind, Seq<char>, int)> {
    if i < 0 || i >= s.len() {
        None
    } else {
        let c = s[i];
        if is_alpha(c) {
            let e = ident_end(s, i);
            let w = s.subrange(i, e);
            match keyword(w) {
                Some(k) => Some((k, Seq::empty(), e)),
                None => Some((TokenKind::Ident, w, e)),
            }
        } else if is_digit(c) {
            let e = digit_end(s, i);
            Some((TokenKind::Int, s.subrange(i, e), e))
        } else if c == '=' || c == '!' || c == '+' || c == '-' {
            let next = if i + 1 < s.len() {
                s[i + 1]
            } else {
                ' '
            };
            match pair_token(c, next) {
                Some((k, n)) => Some((k, Seq::empty(), i + n)),
                None => None,
            }
        } else if c == '"' {
            let e = quote_end(s, i + 1);
            Some((TokenKind::Str, s.subrange(i + 1, e), if e < s.len() { e + 1 } else { e }))
        } else {
            match single_token(c) {
                Some(k) => Some((k, Seq::empty(), i + 1)),
                None => None,
            }
        }
    }
}

/// The tokens of `s` from index `i` on, whitespace skipped, up to the first
/// place where no token starts.
pub open spec fn lex_from(s: Seq<char>, i: int) -> Seq<(TokenKind, Seq<char>)>
    decreases s.len() - i,
{
    let j = skip_space(s, i);
    if i < 0 || j < i || j >= s.len() {
        Seq::empty()
    } else {
        match token_at(s, j) {
            None => Seq::empty(),
            Some((k, lit, e)) => if e <= j || e > s.len() {
                Seq::empty()
            } else {
                seq![(k, lit)] + lex_from(s, e)
            },
        }
    }
}

/// The token list of a source text: its tokens, then the end token.
pub open spec fn lex(s: Seq<char>) -> Seq<(TokenKind, Seq<char>)> {
    lex_from(s, 0).push((TokenKind::Eof, Seq::empty()))
}

pub open spec fn tokens_view(ts: Seq<Token>) -> Seq<(TokenKind, Seq<char>)> {
    ts.map_values(|t: Token| (t.kind, t.literal@))
}

/// Splits source text into tokens.
pub struct Lexer {
    pub input: Vec<char>,
}

impl Lexer {
    pub fn new(input: &str) -> (r: Lexer)
        ensures
            r.input@ == input@,
    {
        Lexer { input: chars_of(input) }
    }

    /// The tokens of the whole input, ending with the end token.
    pub fn tokenize(&self) -> (r: Vec<Token>)
        ensures
            tokens_view(r@) == lex(self.input@),
    {
        let s = &self.input;
        let mut ret: Vec<Token> = Vec::new();
        let mut i: usize = 0;
        loop
            invariant
                s@ == self.input@,
                i <= s@.len(),
                tokens_view(ret@) + lex_from(s@, i as int) == lex_from(s@, 0),
            ensures
                s@ == self.input@,
                i <= s@.len(),
                tokens_view(ret@) == lex_from(s@, 0),
            decreases s@.len() - i,
        {
            let j = self.skip_space(i);
            if j >= s.len() {
                assert(lex_from(s@, i as int) =~= Seq::<(TokenKind, Seq<char>)>::empty());
                assert(tokens_view(ret@) + lex_from(s@, i as int) =~= tokens_view(ret@));
                break;
            }
            match self.token_at(j) {
                None => {
                    assert(lex_from(s@, i as int) =~= Seq::<(TokenKind, Seq<char>)>::empty());
                    assert(tokens_view(ret@) + lex_from(s@, i as int) =~= tokens_view(ret@));
                    break;
                },
                Some((t, e)) => {
                    let ghost tv = (t.kind, t.literal@);
                    let ghost before = ret@;
                    ret.push(t);
                    proof {
                        assert(tokens_view(ret@) =~= tokens_view(before).push(tv));
                        assert(lex_from(s@, i as int) == seq![tv] + lex_from(s@, e as int));
                        assert(tokens_view(ret@) + lex_from(s@, e as int) =~= tokens_view(before)
                            + lex_from(s@, i as int));
                    }
                    i = e;
                },
            }
        }
        let ghost before = ret@;
        ret.push(Token::new(TokenKind::Eof, ""));
        proof {
            reveal_strlit("");
            assert(""@ =~= Seq::<char>::empty());
            assert(tokens_view(ret@) =~= tokens_view(before).push((TokenKind::Eof, ""@)));
            assert(tokens_view(ret@) =~= lex(self.input@));
        }
        ret
    }

    fn skip_space(&self, i: usize) -> (r: usize)
        requires
            i <= self.input@.len(),
        ensures
            r as int == skip_space(self.input@, i as int),
            i <= r <= self.input@.len(),
    {
        let mut j = i;
        while j < self.input.len() && is_space_char(self.input[j])
            invariant
                i <= j <= self.input@.len(),
                skip_space(self.input@, i as int) == skip_space(self.input@, j as int),
            decreases self.input@.len() - j,
        {
            j = j + 1;
        }
        j
    }

    fn ident_end(&self, i: usize) -> (r: usize)
        requires
            i <= self.input@.len(),
        ensures
            r as int == ident_end(self.input@, i as int),
            i <= r <= self.input@.len(),
    {
        let mut j = i;
        while j < self.input.len() && is_ident_char_exec(self.input[j])
            invariant
                i <= j <= self.input@.len(),
                ident_end(self.input@, i as int) == ident_end(self.input@, j as int),
            decreases self.input@.len() - j,
        {
            j = j + 1;
        }
        j
    }

    fn digit_end(&self, i: usize) -> (r: usize)
        requires
            i <= self.input@.len(),
        ensures
            r as int == digit_end(self.input@, i as int),
            i <= r <= self.input@.len(),
    {
        let mut j = i;
        while j < self.input.len() && ('0' <= self.input[j] && self.input[j] <= '9')
            invariant
                i <= j <= self.input@.len(),
                digit_end(self.input@, i as int) == digit_end(self.input@, j as int),
            decreases self.input@.len() - j,
        {
            j = j + 1;
        }
        j
    }

    fn quote_end(&self, i: usize) -> (r: usize)
        requires
            i <= self.input@.len(),
        ensures
            r as int == quote_end(self.input@, i as int),
            i <= r <= self.input@.len(),
    {
        let mut j = i;
        while j < self.input.len() && self.input[j] != '"'
            invariant
                i <= j <= self.input@.len(),
                quote_end(self.input@, i as int) == quote_end(self.input@, j as int),
            decreases self.input@.len() - j,
        {
            j = j + 1;
        }
        j
    }

    /// Whether the characters in `from..to` spell the keyword `k`.
    fn spells(&self, from: usize, to: usize, k: &str) -> (r: bool)
        requires
            from <= to <= self.input@.len(),
        ensures
            r == spells(self.input@.subrange(from as int, to as int), k@),
    {
        let n = k.unicode_len();
        if to - from != n {
            return false;
        }
        let ghost w = self.input@.subrange(from as int, to as int);
        let mut i: usize = 0;
        while i < n
            invariant
                n == k@.len(),
                to - from == n,
                from <= to <= self.input@.len(),
                w == self.input@.subrange(from as int, to as int),
                i <= n,
                forall|m: int|
                    0 <= m < i ==> (#[trigger] w[m] == k@[m] || ('A' <= w[m] <= 'Z' && w[m] as u32
                        + 32 == k@[m] as u32)),
            decreases n - i,
        {
            let a = self.input[from + i];
            let b = k.get_char(i);
            assert(a == w[i as int]);
            let same = a == b || ('A' <= a && a <= 'Z' && (a as u32) + 32 == (b as u32));
            if !same {
                return false;
            }
            i = i + 1;
        }
        true
    }

    fn keyword(&self, from: usize, to: usize) -> (r: Option<TokenKind>)
        requires
            from <= to <= self.input@.len(),
        ensures
            r == keyword(self.input@.subrange(from as int, to as int)),
    {
        if self.spells(from, to, "fn") {
            Some(TokenKind::Function)
        } else if self.spells(from, to, "let") {
            Some(TokenKind::Let)
        } else if self.spells(from, to, "true") {
            Some(TokenKind::True)
        } else if self.spells(from, to, "false") {
            Some(TokenKind::False)
        } else if self.spells(from, to, "if") {
            Some(TokenKind::If)
        } else if self.spells(from, to, "else") {
            Some(TokenKind::Else)
        } else if self.spells(from, to, "return") {
            Some(TokenKind::Return)
        } else {
            None
        }
    }

    fn token_at(&self, i: usize) -> (r: Option<(Token, usize)>)
        requires
            i < self.input@.len(),
        ensures
            match r {
                Some((t, e)) => token_at(self.input@, i as int) == Some(
                    (t.kind, t.literal@, e as int),
                ) && i < e <= self.input@.len(),
                None => token_at(self.input@, i as int) is None,
            },
    {
        proof {
            reveal_strlit("");
        }
        let s = &self.input;
        let n = s.len();
        let c = s[i];
        if ('a' <= c && c <= 'z') || ('A' <= c && c <= 'Z') {
            let e = self.ident_end(i + 1);
            match self.keyword(i, e) {
                Some(k) => Some((Token::new(k, ""), e)),
                None => Some((Token { kind: TokenKind::Ident, literal: string_of(s, i, e) }, e)),
            }
        } else if '0' <= c && c <= '9' {
            let e = self.digit_end(i + 1);
            Some((Token { kind: TokenKind::Int, literal: string_of(s, i, e) }, e))
        } else if c == '=' || c == '!' || c == '+' || c == '-' {
            let next = if i + 1 < n {
                s[i + 1]
            } else {
                ' '
            };
            let (k, n): (TokenKind, usize) = if c == '=' {
                if next == '=' {
                    (TokenKind::Eq, 2)
                } else {
                    (TokenKind::Assign, 1)
                }
            } else if c == '!' {
                if next == '=' {
                    (TokenKind::NotEq, 2)
                } else {
                    (TokenKind::Bang, 1)
                }
            } else if c == '+' {
                if next == '+' {
                    (TokenKind::Inc, 2)
                } else {
                    (TokenKind::Plus, 1)
                }
            } else {
                if next == '-' {
                    (TokenKind::Dec, 2)
                } else {
                    (TokenKind::Minus, 1)
                }
            };
            Some((Token::new(k, ""), i + n))
        } else if c == '"' {
            let e = self.quote_end(i + 1);
            let lit = string_of(s, i + 1, e);
            let after = if e < s.len() {
                e + 1
            } else {
                e
            };
            Some((Token { kind: TokenKind::Str, literal: lit }, after))
        } else {
            let k = if c == '*' {
                TokenKind::Asterisk
            } else if c == '/' {
                TokenKind::Slash
            } else if c == '<' {
                TokenKind::LT
            } else if c == '>' {
                TokenKind::GT
            } else if c == ',' {
                TokenKind::Comma
            } else if c == ';' {
                TokenKind::Semicolon
            } else if c == '(' {
                TokenKind::LParenthesis
            } else if c == ')' {
                TokenKind::RParenthesis
            } else if c == '{' {
                TokenKind::LCurlyBracket
            } else if c == '}' {
                TokenKind::RCurlyBracket
            } else {
                return None;
            };
            Some((Token::new(k, ""), i + 1))
        }
    }
}

fn is_space_char(c: char) -> (r: bool)
    ensures
        r == is_space(c),
{
    let u = c as u32;
    (0x9 <= u && u <= 0xD) || u == 0x20 || u == 0x85 || u == 0xA0 || u == 0x1680 || (0x2000 <= u
        && u <= 0x200A) || u == 0x2028 || u == 0x2029 || u == 0x202F || u == 0x205F || u == 0x3000
}

fn is_ident_char_exec(c: char) -> (r: bool)
    ensures
        r == is_ident_char(c),
{
    ('a' <= c && c <= 'z') || ('A' <= c && c <= 'Z') || ('0' <= c && c <= '9') || c == '_'
}

} // verus!
