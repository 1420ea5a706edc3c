use rmonkey::env::Env;
use rmonkey::eval::Eval;
use rmonkey::lexer::Lexer;
use rmonkey::object::{Object, ObjectTrait};
use rmonkey::parser::parse_tokens;

fn run_in(eval: &mut Eval, src: &str) -> Object {
    let program = parse_tokens(Lexer::new(src).tokenize()).expect("parse failed");
    eval.eval(program)
}

fn run(src: &str) -> Object {
    let mut eval = Eval::new(Env::new());
    run_in(&mut eval, src)
}

fn int_of(o: &Object) -> i64 {
    match o {
        Object::Int(i) => i.value,
        other => panic!("expected an integer, got {:?}", other),
    }
}

fn error_of(o: &Object) -> String {
    match o {
        Object::Error(e) => e.msg.clone(),
        other => panic!("expected an error, got {:?}", other),
    }
}

#[test]
fn closures_capture_their_defining_scope() {
    let r = run("let adder = fn(x) { fn(y) { x + y } }; let add5 = adder(5); add5(3);");
    assert_eq!(int_of(&r), 8);
}

#[test]
fn let_inside_a_call_stays_inside() {
    let mut eval = Eval::new(Env::new());
    let r = run_in(&mut eval, "let x = 1; let f = fn() { let x = 2; let y = 3; x }; f();");
    assert_eq!(int_of(&r), 2);
    assert_eq!(int_of(&run_in(&mut eval, "x;")), 1);
    let r = run_in(&mut eval, "y;");
    assert_eq!(error_of(&r), "Identifier not found: y");
}

#[test]
fn error_stops_the_program() {
    let mut eval = Eval::new(Env::new());
    let r = run_in(&mut eval, "let a = 1; 1 + true; let a = 2;");
    assert_eq!(error_of(&r), "You can't use 1 or true as operand");
    assert_eq!(int_of(&run_in(&mut eval, "a;")), 1);
}

#[test]
fn error_inside_a_block_stops_it() {
    let r = run("let f = fn() { puts(1); -true; puts(2); }; f();");
    assert_eq!(error_of(&r), "Invalid uses of prefix operator: - can't applied to true");
    let mut eval = Eval::new(Env::new());
    run_in(&mut eval, "let f = fn() { puts(1); -true; puts(2); }; f();");
    assert_eq!(eval.take_output(), vec!["1".to_string()]);
}

#[test]
fn if_without_else_and_false_condition_is_an_error() {
    let r = run("if (1 > 2) { 10 }");
    assert_eq!(error_of(&r), "No else found");
    assert_eq!(int_of(&run("if (1 < 2) { 10 }")), 10);
    assert_eq!(int_of(&run("if (false) { 10 } else { 20 }")), 20);
}

#[test]
fn exit_without_arguments_is_an_error() {
    let r = run("exit();");
    assert_eq!(error_of(&r), "Number of argument is not 1");
    assert_eq!(error_of(&run("exit(true);")), "This object is not int");
    assert_eq!(
        error_of(&run("exit(9999999999);")),
        "out of range integral type conversion attempted"
    );
}

#[test]
fn exit_with_a_code_stops_evaluation() {
    let mut eval = Eval::new(Env::new());
    let r = run_in(&mut eval, "puts(\"a\"); exit(3); puts(\"b\");");
    match r {
        Object::Exit(x) => assert_eq!(x.code, 3),
        other => panic!("expected an exit request, got {:?}", other),
    }
    assert_eq!(eval.take_output(), vec!["a".to_string()]);
}

#[test]
fn puts_prints_each_argument() {
    let mut eval = Eval::new(Env::new());
    let r = run_in(&mut eval, "puts(1, \"two\", true);");
    assert!(matches!(r, Object::Null(_)));
    assert_eq!(
        eval.take_output(),
        vec!["1".to_string(), "two".to_string(), "true".to_string()]
    );
    assert!(eval.take_output().is_empty());
}

#[test]
fn error_argument_is_the_call_result() {
    let mut eval = Eval::new(Env::new());
    let r = run_in(&mut eval, "puts(1, 1 + true, 2);");
    assert_eq!(error_of(&r), "You can't use 1 or true as operand");
    assert!(eval.take_output().is_empty());
    let r = run("let f = fn(x) { 5 }; f(1 + true);");
    assert_eq!(error_of(&r), "You can't use 1 or true as operand");
}

#[test]
fn let_of_an_error_binds_nothing() {
    let mut eval = Eval::new(Env::new());
    let r = run_in(&mut eval, "let a = 1 + true;");
    assert_eq!(error_of(&r), "You can't use 1 or true as operand");
    assert_eq!(error_of(&run_in(&mut eval, "a;")), "Identifier not found: a");
}

#[test]
fn callee_is_any_expression() {
    assert_eq!(int_of(&run("if (true) { fn(x) { x * 2 } } else { 0 }(3);")), 6);
    assert_eq!(error_of(&run("5(1);")), "5 is not a function");
}

#[test]
fn integer_arithmetic() {
    assert_eq!(int_of(&run("1 + 2 * 3;")), 7);
    assert_eq!(int_of(&run("(1 + 2) * 3;")), 9);
    assert_eq!(int_of(&run("1 - 2 - 3;")), -4);
    assert_eq!(int_of(&run("-7 / 2;")), -3);
    assert_eq!(int_of(&run("7 / -2;")), -3);
    assert_eq!(int_of(&run("let x = 5; x++;")), 6);
    assert_eq!(int_of(&run("let x = 5; --x;")), 4);
}

#[test]
fn division_by_zero_and_overflow_are_errors() {
    assert_eq!(error_of(&run("1 / 0;")), "Division by zero");
    assert_eq!(error_of(&run("9223372036854775807 + 1;")), "Integer overflow");
    assert_eq!(error_of(&run("-9223372036854775807 - 2;")), "Integer overflow");
}

#[test]
fn comparisons_and_negation() {
    assert!(matches!(run("1 < 2;"), Object::Bool(b) if b.value));
    assert!(matches!(run("true == false;"), Object::Bool(b) if !b.value));
    assert!(matches!(run("!true;"), Object::Bool(b) if !b.value));
    assert!(matches!(run("!5;"), Object::Bool(b) if !b.value));
    assert!(matches!(run("\"a\" != \"b\";"), Object::Bool(b) if b.value));
    assert_eq!(
        error_of(&run("1 == 1;")),
        "Invalid uses of infix operator: == can't applied to 1 and 1"
    );
}

#[test]
fn string_concatenation() {
    match run("\"hello\" + \" \" + \"world\";") {
        Object::Str(s) => assert_eq!(s.str, "hello world"),
        other => panic!("expected a string, got {:?}", other),
    }
}

#[test]
fn return_ends_only_the_current_call() {
    let r = run("let f = fn(x) { if (x > 0) { return 1; } else { return 2; }; 3 }; f(5) + f(0);");
    assert_eq!(int_of(&r), 3);
    assert_eq!(int_of(&run("return 4; 5;")), 4);
}

#[test]
fn recursion_through_a_let_binding() {
    let r = run(
        "let fib = fn(n) { if (n < 2) { n } else { fib(n - 1) + fib(n - 2) } }; fib(15);",
    );
    assert_eq!(int_of(&r), 610);
}

#[test]
fn wrong_argument_count_is_an_error() {
    assert_eq!(
        error_of(&run("let f = fn(a, b) { a }; f(1);")),
        "Number of argument is less than or greater than: expect 2, got 1"
    );
}

#[test]
fn calling_a_non_function_is_an_error() {
    assert_eq!(error_of(&run("let x = 1; x(2);")), "1 is not a function");
    assert_eq!(error_of(&run("undefined(2);")), "Identifier not found: undefined");
}

#[test]
fn display_forms() {
    assert_eq!(run("fn(a, b) { a + b };").inspect(), "fn(a, b){\n    (a + b)\n}");
    assert_eq!(run("puts;").inspect(), "Buildin Function");
    assert_eq!(run("1 + true;").inspect(), "An error happen: You can't use 1 or true as operand");
    assert_eq!(run("-12;").inspect(), "-12");
}

#[test]
fn return_inside_an_if_leaves_the_function() {
    let r = run("let f = fn() { return if (true) { return 1; } else { 2 }; }; f();");
    assert_eq!(int_of(&r), 1);
    let r = run("let g = fn() { let y = if (true) { return 7; } else { 2 }; 9 }; g();");
    assert_eq!(int_of(&r), 7);
    let r = run("let h = fn() { 1 + if (true) { return 3; } else { 4 } }; h() * 2;");
    assert_eq!(int_of(&r), 6);
}

#[test]
fn let_of_a_return_binds_nothing() {
    let mut eval = Eval::new(Env::new());
    let r = run_in(&mut eval, "let x = if (true) { return 1; } else { 2 }; x;");
    assert_eq!(int_of(&r), 1);
    assert_eq!(error_of(&run_in(&mut eval, "x;")), "Identifier not found: x");
}
