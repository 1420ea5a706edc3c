use rmonkey::ast::{Expression, Identifier, LetStatement, Node, Program, Statement};
use rmonkey::lexer::Lexer;
use rmonkey::parse_error::ParseError;
use rmonkey::parser::{parse_tokens, Parser};
use rmonkey::token::{Token, TokenKind};

fn parse_input(input: &str) -> Program {
    let lexer = Lexer::new(input);
    let mut parser = Parser::new(lexer.tokenize());
    match parser.parse() {
        Ok(p) => p,
        Err(err) => panic!("{:?}", err),
    }
}

fn test_program_length(prg: &Program, len: usize) {
    if prg.statements.len() != len {
        panic!(
            "program.statements dosen't contain {} statements: got {}",
            len,
            prg.statements.len()
        );
    }
}

fn test_exp_statement(stmt: &Statement, exp: String) {
    if stmt.string() != exp {
        panic!("The statement has different expression: expect {}, got {}", exp, stmt.string());
    }
}

fn check_all(input: &str, expected: &[&str]) {
    let program = parse_input(input);
    test_program_length(&program, expected.len());
    for (stmt, test) in program.statements.iter().zip(expected) {
        test_exp_statement(stmt, test.to_string());
    }
}

#[test]
fn test_let_statements() {
    check_all(
        "
        let x = 5;
        let y = 10;
        let z = 1 * (2 + 3);",
        &["let x = 5;", "let y = 10;", "let z = (1 * (2 + 3));"],
    );
}

#[test]
fn test_ret_statements() {
    check_all(
        "
        return 5;
        return 10;
        return 1 * (2 + 3);",
        &["return 5;", "return 10;", "return (1 * (2 + 3));"],
    );
}

#[test]
fn test_identifier_expression() {
    check_all(
        "
        foo;
        bar;
        foobar;",
        &["foo", "bar", "foobar"],
    );
}

#[test]
fn test_integer_expression() {
    check_all(
        "
        5;
        10;
        858585;",
        &["5", "10", "858585"],
    );
}

#[test]
fn test_prefix_expression() {
    check_all(
        "
        !5;
        -15;",
        &["(!5)", "(-15)"],
    );
}

#[test]
fn test_infix_expression() {
    check_all(
        "
        5 + 5;
        5 - 5;
        5 * 5;
        5 / 5;
        5 == 5;
        5 != 5;
        5 < 5;
        5 > 5;",
        &[
            "(5 + 5)", "(5 - 5)", "(5 * 5)", "(5 / 5)", "(5 == 5)", "(5 != 5)", "(5 < 5)",
            "(5 > 5)",
        ],
    );
}

#[test]
fn test_boolean_expression() {
    check_all(
        "
        true;
        false;",
        &["true", "false"],
    );
}

#[test]
fn test_grouped_expression() {
    check_all("(1 + 2) * 3;", &["((1 + 2) * 3)"]);
}

#[test]
fn test_if_expression() {
    check_all("if (a < 10) { x }", &["if ( (a < 10) ) { x }"]);
}

#[test]
fn test_if_else_expression() {
    check_all("if (a < 10) { x } else { y }", &["if ( (a < 10) ) { x } else { y }"]);
}

#[test]
fn test_function_statement() {
    check_all("fn(a, b) { a + b }", &["fn(a, b) { (a + b) }"]);
}

#[test]
fn test_call_expression() {
    check_all("add(10, a * (10 + b), c == d)", &["add(10, (a * (10 + b)), (c == d))"]);
}

#[test]
fn test_str_expression() {
    check_all("\"hello world\";", &["\"hello world\""]);
}

#[test]
fn test_test_let_statements() {
    let program = parse_input(
        "
        let x = 5;
        let y = 10;
        let foobar = 838383;",
    );
    test_program_length(&program, 3);
    let names = vec!["x", "y", "foobar"];
    for (statement, name) in program.statements.iter().zip(&names) {
        match statement {
            Statement::Let(l) => {
                if l.ident.name != *name {
                    panic!("The name of identifier is not {}: got {}", name, l.ident.name);
                }
            }
            _ => panic!("Literal is not let: got {}", statement.string()),
        }
    }
}

#[test]
fn test_return_statements() {
    let program = parse_input(
        "
        return 5;
        return 10;
        return 838383;",
    );
    test_program_length(&program, 3);
    for statement in program.statements.iter() {
        match statement {
            Statement::Ret(_) => (),
            _ => panic!("Literal is not return: got {}", statement.string()),
        }
    }
}

#[test]
fn test_string() {
    let result = "let a = b;";
    let mut ast = Program::new();
    ast.statements.push(Statement::Let(LetStatement::new(
        Identifier::new("a".to_string()),
        Expression::Ident(Identifier::new("b".to_string())),
    )));
    if ast.string().as_str() != result {
        panic!("String is different: expect {}, got {}", result, ast.string());
    }
}

#[test]
fn test_test_identifier_expression() {
    let program = parse_input("foobar;");
    test_program_length(&program, 1);
    match &program.statements[0] {
        Statement::Exp(x) => match &x.exp {
            Expression::Ident(i) => {
                if i.name != "foobar" {
                    panic!("Identifier is not foobar: got {}", i.name);
                }
            }
            _ => panic!("Expression is not Identifier"),
        },
        other => panic!("Literal is not an expression statement: got {}", other.string()),
    }
}

#[test]
fn precedence_product_binds_tighter_than_sum() {
    let a = parse_input("1 + 2 * 3;");
    let b = parse_input("1 + (2 * 3);");
    assert_eq!(a, b);
    assert_eq!(a.statements[0].string(), "(1 + (2 * 3))");
}

#[test]
fn subtraction_is_left_associative() {
    let p = parse_input("1 - 2 - 3;");
    assert_eq!(p.statements[0].string(), "((1 - 2) - 3)");
}

#[test]
fn rendering_reparses_to_the_same_tree() {
    let sources = [
        "let f = fn(x, y) { return x * (y + 1); };",
        "if (a < b) { a } else { -b }",
        "f(1, 2)(3) + !true == false;",
        "x; -y;",
        "let g = fn(a) { a; -a }; g(1)--; x++;",
        "if (c) { x; (y) } else { z }",
    ];
    for src in sources.iter() {
        let first = parse_input(src);
        let text = first.string();
        let second = parse_input(&text);
        assert_eq!(first, second, "{}", text);
    }
}

#[test]
fn prefix_and_postfix_operators() {
    check_all("-a * b; ++x; x++ + 1;", &["((-a) * b)", "(++x)", "((x++) + 1)"]);
}

#[test]
fn empty_parameter_and_argument_lists() {
    check_all("fn() { 1 }; f();", &["fn() { 1 }", "f()"]);
}

#[test]
fn missing_closing_parenthesis_is_an_error() {
    let tokens = Lexer::new("(1 + 2;").tokenize();
    assert_eq!(
        parse_tokens(tokens),
        Err(ParseError::InvalidTokenFound(TokenKind::RParenthesis, TokenKind::Semicolon))
    );
}

#[test]
fn token_without_expression_rule_is_an_error() {
    let tokens = Lexer::new("let x = ;").tokenize();
    assert_eq!(
        parse_tokens(tokens),
        Err(ParseError::NoSuchExpressionStartWith(TokenKind::Semicolon))
    );
}

#[test]
fn running_out_of_tokens_is_an_error() {
    let tokens = vec![Token::new(TokenKind::Int, "1")];
    assert_eq!(parse_tokens(tokens), Err(ParseError::FailedToReadToken));
}

#[test]
fn unterminated_block_is_an_error() {
    let tokens = Lexer::new("fn(x) { x").tokenize();
    assert_eq!(
        parse_tokens(tokens),
        Err(ParseError::NoSuchExpressionStartWith(TokenKind::Eof))
    );
}

#[test]
fn let_without_name_is_an_error() {
    let tokens = Lexer::new("let 5 = 1;").tokenize();
    assert_eq!(
        parse_tokens(tokens),
        Err(ParseError::InvalidTokenFound(TokenKind::Ident, TokenKind::Int))
    );
}

#[test]
fn integer_literal_out_of_range_is_an_error() {
    let tokens = Lexer::new("99999999999999999999;").tokenize();
    assert_eq!(parse_tokens(tokens), Err(ParseError::InvalidIntegerLiteral));
    let tokens = Lexer::new("9223372036854775807;").tokenize();
    let p = parse_tokens(tokens).unwrap();
    assert_eq!(p.statements[0].string(), "9223372036854775807");
}

#[test]
fn malformed_input_ends_with_an_error() {
    let inputs = ["(((", "fn(", "if (", "a(1, 2", "let", "return", "{ }", ")", "1 + ", "f(,)"];
    for src in inputs.iter() {
        let tokens = Lexer::new(src).tokenize();
        assert!(parse_tokens(tokens).is_err(), "{}", src);
    }
}

#[test]
fn program_rendering_keeps_statements_apart() {
    let p = parse_input("x; -y; let z = 1; return z;");
    assert_eq!(p.string(), "x; (-y); let z = 1; return z;");
    let q = parse_input("fn() { a; b }");
    assert_eq!(q.string(), "fn() { a; b }");
}

#[test]
fn trailing_operator_is_a_parse_error() {
    let tokens = Lexer::new("let x = 5 -").tokenize();
    assert_eq!(
        parse_tokens(tokens),
        Err(ParseError::NoSuchExpressionStartWith(TokenKind::Eof))
    );
}
