use lox::expr::Expr;
use lox::interpreter::Interpreter;
use lox::lox_error::LoxError;
use lox::lox_result::LoxResult;
use lox::parser::Parser;
use lox::resolver::{ClassType, FunctionType, Resolver};
use lox::scanner::Scanner;
use lox::stmt::Stmt;

fn parse(source: &str) -> Vec<Stmt> {
    let mut scanner = Scanner::new(source);
    let tokens = scanner.scan_tokens().unwrap();
    Parser::new(&tokens).parse().unwrap()
}

fn output_of(source: &str) -> Vec<String> {
    let statements = parse(source);
    let mut interpreter = Interpreter::new();
    Resolver::new(&mut interpreter).resolve_stmts(&statements).unwrap();
    interpreter.interpret(&statements).unwrap();
    interpreter.output().clone()
}

#[test]
fn a_new_resolver_is_outside_of_everything() {
    let mut interpreter = Interpreter::new();
    let resolver = Resolver::new(&mut interpreter);
    assert_eq!(resolver.scopes.len(), 0);
    assert_eq!(resolver.current_function, FunctionType::Outside);
    assert_eq!(resolver.current_class, ClassType::Outside);
}

#[test]
fn scopes_begin_and_end() {
    let mut interpreter = Interpreter::new();
    let mut resolver = Resolver::new(&mut interpreter);
    resolver.begin_scope();
    resolver.begin_scope();
    assert_eq!(resolver.scopes.len(), 2);
    resolver.end_scope();
    assert_eq!(resolver.scopes.len(), 1);
    resolver.end_scope();
    resolver.end_scope();
    assert_eq!(resolver.scopes.len(), 0);
}

#[test]
fn scopes_are_balanced_after_a_pass() {
    let statements = parse(
        "{ var a = 1; { var b = a; } } fun f(x) { { return x; } } \
         class A { m() { return this; } } class B < A { m() { return super.m(); } }",
    );
    let mut interpreter = Interpreter::new();
    let mut resolver = Resolver::new(&mut interpreter);
    resolver.resolve_stmts(&statements).unwrap();
    assert_eq!(resolver.scopes.len(), 0);
    assert_eq!(resolver.current_function, FunctionType::Outside);
    assert_eq!(resolver.current_class, ClassType::Outside);
}

#[test]
fn a_local_is_found_at_its_recorded_depth() {
    assert_eq!(
        output_of("{ var a = \"outer\"; { var b = \"inner\"; { print a; print b; a = \"set\"; } print a; } }"),
        vec!["outer", "inner", "set"]
    );
}

#[test]
fn a_resolved_name_keeps_its_scope_when_a_nearer_one_is_defined_later() {
    assert_eq!(
        output_of(
            "{ var a = \"first\"; { fun show() { print a; } show(); var a = \"second\"; show(); } }"
        ),
        vec!["first", "first"]
    );
}

#[test]
fn resolve_expr_records_nothing_for_a_global() {
    let statements = parse("a;");
    let mut interpreter = Interpreter::new();
    let mut resolver = Resolver::new(&mut interpreter);
    match &statements[0] {
        Stmt::Expression(x) => {
            assert!(matches!(&x.expression, Expr::Variable(_)));
            resolver.resolve_expr(&x.expression).unwrap();
        }
        other => panic!("{:?}", other),
    }
    assert_eq!(resolver.scopes.len(), 0);
}

#[test]
fn resolve_function_declares_its_parameters() {
    let statements = parse("fun f(a, b) { return a + b; } fun g(a, a) {}");
    let mut interpreter = Interpreter::new();
    let mut resolver = Resolver::new(&mut interpreter);
    match &statements[0] {
        Stmt::Function(f) => resolver.resolve_function(f, FunctionType::Function).unwrap(),
        other => panic!("{:?}", other),
    }
    assert_eq!(resolver.current_function, FunctionType::Outside);
    match &statements[1] {
        Stmt::Function(g) => match resolver.resolve_function(g, FunctionType::Function) {
            Err(LoxResult::Error { line, message }) => {
                assert_eq!(line, 1);
                assert_eq!(message, "Variable with this name already exists in this scope.");
            }
            other => panic!("{:?}", other),
        },
        other => panic!("{:?}", other),
    }
}

#[test]
fn the_first_error_ends_the_pass() {
    let statements = parse("{ var a = a; }\nreturn 1;");
    let mut interpreter = Interpreter::new();
    match Resolver::new(&mut interpreter).resolve_stmts(&statements) {
        Err(LoxResult::Error { line, message }) => {
            assert_eq!(line, 1);
            assert_eq!(message, "Can't read local variable in its own initializer");
        }
        other => panic!("{:?}", other),
    }
}

#[test]
fn return_without_a_value_is_allowed_in_an_initializer() {
    let statements = parse("class A { init() { return; } m() { return 1; } }");
    let mut interpreter = Interpreter::new();
    Resolver::new(&mut interpreter).resolve_stmts(&statements).unwrap();
}

#[test]
fn a_plain_error_is_written_with_its_line() {
    assert_eq!(LoxError::new(12, "went wrong".to_owned()).to_string(), "Line 12: went wrong");
    assert_eq!(LoxError::new(0, String::new()).to_string(), "Line 0: ");
}
