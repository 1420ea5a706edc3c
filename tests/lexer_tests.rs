use rmonkey::lexer::Lexer;
use rmonkey::token::{Token, TokenKind};

fn check_tokens(input: &str, tests: Vec<Token>) {
    let lexer = Lexer::new(input);
    let tokens = lexer.tokenize();
    if tokens.len() != tests.len() {
        println!("{:?}", tokens);
        panic!(
            "Number of toknes is different: expect {}, but found {}",
            tests.len(),
            tokens.len()
        );
    }
    for (target, test) in tokens.iter().zip(&tests) {
        assert!(target == test, "Assertion failed: expect {:?}, got {:?}", test, target);
    }
}

fn common_tokens() -> Vec<Token> {
    vec![
        Token::new(TokenKind::Let, ""),
        Token::new(TokenKind::Ident, "five"),
        Token::new(TokenKind::Assign, ""),
        Token::new(TokenKind::Int, "5"),
        Token::new(TokenKind::Semicolon, ""),
        Token::new(TokenKind::Let, ""),
        Token::new(TokenKind::Ident, "ten"),
        Token::new(TokenKind::Assign, ""),
        Token::new(TokenKind::Int, "10"),
        Token::new(TokenKind::Semicolon, ""),
        Token::new(TokenKind::Let, ""),
        Token::new(TokenKind::Ident, "add"),
        Token::new(TokenKind::Assign, ""),
        Token::new(TokenKind::Function, ""),
        Token::new(TokenKind::LParenthesis, ""),
        Token::new(TokenKind::Ident, "a"),
        Token::new(TokenKind::Comma, ""),
        Token::new(TokenKind::Ident, "b"),
        Token::new(TokenKind::RParenthesis, ""),
        Token::new(TokenKind::LCurlyBracket, ""),
        Token::new(TokenKind::Ident, "a"),
        Token::new(TokenKind::Plus, ""),
        Token::new(TokenKind::Ident, "b"),
        Token::new(TokenKind::Semicolon, ""),
        Token::new(TokenKind::RCurlyBracket, ""),
        Token::new(TokenKind::Semicolon, ""),
        Token::new(TokenKind::Let, ""),
        Token::new(TokenKind::Ident, "result"),
        Token::new(TokenKind::Assign, ""),
        Token::new(TokenKind::Ident, "add"),
        Token::new(TokenKind::LParenthesis, ""),
        Token::new(TokenKind::Ident, "five"),
        Token::new(TokenKind::Comma, ""),
        Token::new(TokenKind::Ident, "ten"),
        Token::new(TokenKind::RParenthesis, ""),
        Token::new(TokenKind::Semicolon, ""),
        Token::new(TokenKind::Bang, ""),
        Token::new(TokenKind::Minus, ""),
        Token::new(TokenKind::Slash, ""),
        Token::new(TokenKind::Asterisk, ""),
        Token::new(TokenKind::Int, "5"),
        Token::new(TokenKind::Semicolon, ""),
        Token::new(TokenKind::Int, "5"),
        Token::new(TokenKind::LT, ""),
        Token::new(TokenKind::Int, "10"),
        Token::new(TokenKind::GT, ""),
        Token::new(TokenKind::Int, "5"),
        Token::new(TokenKind::Semicolon, ""),
        Token::new(TokenKind::If, ""),
        Token::new(TokenKind::LParenthesis, ""),
        Token::new(TokenKind::Int, "5"),
        Token::new(TokenKind::LT, ""),
        Token::new(TokenKind::Int, "10"),
        Token::new(TokenKind::RParenthesis, ""),
        Token::new(TokenKind::LCurlyBracket, ""),
        Token::new(TokenKind::Return, ""),
        Token::new(TokenKind::True, ""),
        Token::new(TokenKind::Semicolon, ""),
        Token::new(TokenKind::RCurlyBracket, ""),
        Token::new(TokenKind::Else, ""),
        Token::new(TokenKind::LCurlyBracket, ""),
        Token::new(TokenKind::Return, ""),
        Token::new(TokenKind::False, ""),
        Token::new(TokenKind::Semicolon, ""),
        Token::new(TokenKind::RCurlyBracket, ""),
        Token::new(TokenKind::Int, "5"),
        Token::new(TokenKind::Eq, ""),
        Token::new(TokenKind::Int, "5"),
        Token::new(TokenKind::Semicolon, ""),
        Token::new(TokenKind::Int, "5"),
        Token::new(TokenKind::NotEq, ""),
        Token::new(TokenKind::Int, "10"),
        Token::new(TokenKind::Semicolon, ""),
    ]
}

const COMMON_INPUT: &str = "
        let five = 5;
        let ten = 10;
        let add = fn(a, b) {
            a + b;
        };
        let result = add(five, ten);
        !-/*5;
        5 < 10 > 5;
        if (5 < 10) {
            return true;
        } else {
            return false;
        }
        5 == 5;
        5 != 10;";

#[test]
fn test_test_lexer() {
    let mut tests = common_tokens();
    tests.push(Token::new(TokenKind::Eof, ""));
    check_tokens(COMMON_INPUT, tests);
}

#[test]
fn test_lexer() {
    let input = format!("{}\n        \"hello world\";", COMMON_INPUT);
    let mut tests = common_tokens();
    tests.push(Token::new(TokenKind::Str, "hello world"));
    tests.push(Token::new(TokenKind::Semicolon, ""));
    tests.push(Token::new(TokenKind::Eof, ""));
    check_tokens(&input, tests);
}

#[test]
fn empty_input_gives_only_the_end_token() {
    check_tokens("", vec![Token::new(TokenKind::Eof, "")]);
    check_tokens(" \t\n", vec![Token::new(TokenKind::Eof, "")]);
}

#[test]
fn two_character_operators_and_keyword_case() {
    check_tokens(
        "x++ -- LET Fn foo_1",
        vec![
            Token::new(TokenKind::Ident, "x"),
            Token::new(TokenKind::Inc, ""),
            Token::new(TokenKind::Dec, ""),
            Token::new(TokenKind::Let, ""),
            Token::new(TokenKind::Function, ""),
            Token::new(TokenKind::Ident, "foo_1"),
            Token::new(TokenKind::Eof, ""),
        ],
    );
}

#[test]
fn unknown_character_ends_the_tokens() {
    check_tokens(
        "a @ b",
        vec![Token::new(TokenKind::Ident, "a"), Token::new(TokenKind::Eof, "")],
    );
}

#[test]
fn token_literal_text() {
    assert_eq!(Token::new(TokenKind::NotEq, "").literal(), "!=");
    assert_eq!(Token::new(TokenKind::Ident, "abc").literal(), "abc");
    assert_eq!(Token::new(TokenKind::Eof, "").literal(), "eof");
}

#[test]
fn operator_in_last_position_is_a_token() {
    check_tokens(
        "5 -",
        vec![
            Token::new(TokenKind::Int, "5"),
            Token::new(TokenKind::Minus, ""),
            Token::new(TokenKind::Eof, ""),
        ],
    );
    check_tokens("!", vec![Token::new(TokenKind::Bang, ""), Token::new(TokenKind::Eof, "")]);
}
