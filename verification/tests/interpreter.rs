use lox::expr::{BinaryExpr, Expr, Literal};
use lox::interpreter::Interpreter;
use lox::lox_result::LoxResult;
use lox::number::Number;
use lox::parser::Parser;
use lox::resolver::Resolver;
use lox::scanner::Scanner;
use lox::token::{Token, TokenType};

fn number(value: f64) -> Number {
    Number::from_units((value * 1_000_000.0).round() as i64)
}

/// Runs a program and gives what it printed, and how it ended.
fn run(source: &str) -> (Vec<String>, Result<(), LoxResult>) {
    let mut scanner = Scanner::new(source);
    let tokens = match scanner.scan_tokens() {
        Ok(tokens) => tokens,
        Err(e) => return (vec![], Err(e)),
    };
    let mut parser = Parser::new(&tokens);
    let statements = match parser.parse() {
        Ok(statements) => statements,
        Err(e) => return (vec![], Err(e)),
    };
    let mut interpreter = Interpreter::new();
    {
        let mut resolver = Resolver::new(&mut interpreter);
        if let Err(e) = resolver.resolve_stmts(&statements) {
            return (vec![], Err(e));
        }
    }
    let result = interpreter.interpret(&statements);
    (interpreter.output().clone(), result)
}

fn prints(source: &str) -> Vec<String> {
    let (output, result) = run(source);
    match result {
        Ok(()) => output,
        Err(e) => panic!("program failed: {:?}", e),
    }
}

fn runtime_error(source: &str) -> (usize, String) {
    match run(source).1 {
        Err(LoxResult::RuntimeError { line, message }) => (line, message),
        other => panic!("expected a runtime error, got {:?}", other),
    }
}

fn static_error(source: &str) -> (usize, String) {
    match run(source).1 {
        Err(LoxResult::Error { line, message }) => (line, message),
        other => panic!("expected a static error, got {:?}", other),
    }
}

#[test]
fn test_multiplication() {
    let left = Expr::Literal(Literal::Number(number(2.0)));
    let right = Expr::Literal(Literal::Number(number(8.0)));
    let e = Expr::Binary(Box::new(BinaryExpr::new(
        left,
        Token::new(TokenType::Star, "*".to_owned(), 1),
        right,
    )));

    let mut interpreter = Interpreter::new();
    let result = interpreter.evaluate(&e);
    match result {
        Ok(e) => assert_eq!(e, Literal::Number(number(16.0))),
        Err(_) => unreachable!(),
    }
}

#[test]
fn test_precedence() {
    let left = Expr::Binary(Box::new(BinaryExpr::new(
        Expr::Literal(Literal::Number(number(1.0))),
        Token::new(TokenType::Plus, "+".to_owned(), 1),
        Expr::Literal(Literal::Number(number(2.0))),
    )));
    let right = Expr::Binary(Box::new(BinaryExpr::new(
        Expr::Literal(Literal::Number(number(4.0))),
        Token::new(TokenType::Minus, "-".to_owned(), 1),
        Expr::Literal(Literal::Number(number(5.0))),
    )));
    let e = Expr::Binary(Box::new(BinaryExpr::new(
        left,
        Token::new(TokenType::Star, "*".to_owned(), 1),
        right,
    )));

    let mut interpreter = Interpreter::new();
    let result = interpreter.evaluate(&e);
    match result {
        Ok(e) => assert_eq!(e, Literal::Number(number(-3.0))),
        Err(_) => unreachable!(),
    }
}

#[test]
fn arithmetic_follows_precedence() {
    assert_eq!(prints("print 1 + 2 * 3;"), vec!["7"]);
    assert_eq!(prints("print (1 + 2) * 3;"), vec!["9"]);
    assert_eq!(prints("print 10 - 4 - 3;"), vec!["3"]);
    assert_eq!(prints("print 8 / 4 / 2;"), vec!["1"]);
    assert_eq!(prints("print -2 * -3;"), vec!["6"]);
}

#[test]
fn text_and_number_concatenate() {
    assert_eq!(prints("var a = \"hi\"; var b = 3; print a + b;"), vec!["hi3"]);
    assert_eq!(prints("print \"x\" + 1;"), vec!["x1"]);
    assert_eq!(prints("print 1 + \"x\";"), vec!["1x"]);
    assert_eq!(prints("print \"a\" + \"b\";"), vec!["ab"]);
    assert_eq!(prints("print \"v\" + 1.5;"), vec!["v1.5"]);
}

#[test]
fn counter_closure_keeps_its_variable() {
    assert_eq!(
        prints(
            "fun makeCounter() { var n = 0; fun c() { n = n + 1; return n; } return c; } \
             var c = makeCounter(); print c(); print c();"
        ),
        vec!["1", "2"]
    );
}

#[test]
fn super_calls_the_superclass_method() {
    assert_eq!(
        prints(
            "class A { hello() { print \"A\"; } } \
             class B < A { hello() { super.hello(); print \"B\"; } } B().hello();"
        ),
        vec!["A", "B"]
    );
}

#[test]
fn initializer_sets_a_field() {
    assert_eq!(
        prints("class Cake { init() { this.flavor = \"choc\"; } } print Cake().flavor;"),
        vec!["choc"]
    );
}

#[test]
fn for_loop_counts() {
    assert_eq!(prints("var i = 0; for (; i < 3; i = i + 1) print i;"), vec!["0", "1", "2"]);
    assert_eq!(prints("for (var i = 0; i < 3; i = i + 1) print i;"), vec!["0", "1", "2"]);
}

#[test]
fn nil_equals_only_nil() {
    assert_eq!(prints("print \"x\" == nil;"), vec!["false"]);
    assert_eq!(prints("print nil == nil;"), vec!["true"]);
    assert_eq!(prints("print nil != nil;"), vec!["false"]);
    assert_eq!(prints("print nil == false;"), vec!["false"]);
}

#[test]
fn equality_is_symmetric() {
    assert_eq!(prints("print 1 == 1; print \"a\" == \"a\"; print true == true;"), vec!["true"; 3]);
    assert_eq!(prints("print 1 == \"1\"; print \"1\" == 1;"), vec!["false", "false"]);
    assert_eq!(prints("fun f() {} print f == f; var g = f; print g == f;"), vec!["true", "true"]);
    assert_eq!(prints("class A {} var a = A(); print a == a; print a == A();"), vec!["true", "false"]);
}

#[test]
fn double_negation_gives_truthiness() {
    assert_eq!(prints("print !!0; print !!\"\"; print !!nil; print !!false; print !!true;"),
        vec!["true", "true", "false", "false", "true"]);
    assert_eq!(prints("fun f() {} print !!f;"), vec!["true"]);
}

#[test]
fn nil_plus_anything_is_a_runtime_error() {
    let message = "Operands must be two numbers or two strings.".to_owned();
    assert_eq!(runtime_error("print nil + 1;"), (1, message.clone()));
    assert_eq!(runtime_error("print 1 + nil;"), (1, message.clone()));
    assert_eq!(runtime_error("print nil + \"x\";"), (1, message.clone()));
    assert_eq!(runtime_error("\nprint nil + nil;"), (2, message.clone()));
    assert_eq!(runtime_error("print true + 1;"), (1, message));
}

#[test]
fn division_by_zero_is_a_runtime_error() {
    assert_eq!(runtime_error("print 1 / 0;"), (1, "Division by zero".to_owned()));
    assert_eq!(runtime_error("print 0 / 0;"), (1, "Division by zero".to_owned()));
    assert_eq!(runtime_error("var z = 1 - 1;\nprint 5 / z;"), (2, "Division by zero".to_owned()));
}

#[test]
fn shadowing() {
    assert_eq!(prints("var a = 1; { var a = 2; print a; } print a;"), vec!["2", "1"]);
}

#[test]
fn closure_captures_block_bindings_after_exit() {
    assert_eq!(
        prints("var f; { var a = \"inner\"; fun g() { print a; } f = g; } f();"),
        vec!["inner"]
    );
    assert_eq!(
        prints(
            "fun outer() { var a = \"kept\"; fun inner() { return a; } return inner; } \
             var f = outer(); var a = \"global\"; print f();"
        ),
        vec!["kept"]
    );
}

#[test]
fn an_unresolved_name_is_looked_up_along_the_chain_of_scopes() {
    assert_eq!(
        prints(
            "var a = \"global\"; { fun show() { print a; } show(); var a = \"block\"; show(); }"
        ),
        vec!["global", "block"]
    );
}

#[test]
fn initializer_always_returns_the_instance() {
    assert_eq!(
        prints("class Foo { init() { this.x = 1; return; this.x = 2; } } print Foo().x;"),
        vec!["1"]
    );
    assert_eq!(
        prints("class Foo { init() { return; } } var f = Foo(); print f; print f.init() == f;"),
        vec!["<Foo instance>", "true"]
    );
    assert_eq!(
        static_error("class Foo {\n init() { return 1; } }"),
        (2, "Can't return a value from an initializer.".to_owned())
    );
}

#[test]
fn display_forms() {
    assert_eq!(prints("print nil; print true; print false;"), vec!["nil", "true", "false"]);
    assert_eq!(prints("print 3; print 3.25; print -0.5; print 100.10; print 0;"),
        vec!["3", "3.25", "-0.5", "100.1", "0"]);
    assert_eq!(prints("print \"raw text\";"), vec!["raw text"]);
    assert_eq!(prints("fun add(a, b) {} print add;"), vec!["<fn add>"]);
    assert_eq!(prints("class Tea {} print Tea; print Tea();"), vec!["Tea", "<Tea instance>"]);
    assert_eq!(prints("print clock;"), vec!["<native fn>"]);
}

#[test]
fn numbers_truncate_to_six_digits() {
    assert_eq!(prints("print 1 / 3;"), vec!["0.333333"]);
    assert_eq!(prints("print -1 / 3;"), vec!["-0.333333"]);
    assert_eq!(prints("print 2 / 3 * 3;"), vec!["1.999998"]);
    assert_eq!(prints("print 0.000001 * 0.1;"), vec!["0"]);
    assert_eq!(prints("print 1.5 * 1.5;"), vec!["2.25"]);
}

#[test]
fn numbers_out_of_range_are_runtime_errors() {
    assert_eq!(
        runtime_error("print 9000000000000 + 9000000000000;"),
        (1, "Number out of range.".to_owned())
    );
    assert_eq!(
        runtime_error("print 9000000000000 * 9000000000000;"),
        (1, "Number out of range.".to_owned())
    );
    assert_eq!(
        runtime_error("print 9000000000000 / 0.000001;"),
        (1, "Number out of range.".to_owned())
    );
}

#[test]
fn comparisons() {
    assert_eq!(prints("print 1 < 2; print 2 <= 2; print 3 > 4; print 4 >= 5;"),
        vec!["true", "true", "false", "false"]);
    assert_eq!(runtime_error("print 1 < \"2\";"), (1, "Operands must be numbers.".to_owned()));
    assert_eq!(runtime_error("print \"a\" - 1;"), (1, "Operands must be numbers.".to_owned()));
    assert_eq!(runtime_error("print -\"a\";"), (1, "Operand must be a number.".to_owned()));
}

#[test]
fn logical_operators_short_circuit() {
    assert_eq!(prints("print nil or \"yes\"; print 1 or 2; print nil and 1; print 1 and 2;"),
        vec!["yes", "1", "nil", "2"]);
    assert_eq!(prints("var a = 0; fun f() { a = 1; return true; } print true or f(); print a;"),
        vec!["true", "0"]);
    assert_eq!(prints("var a = 0; fun f() { a = 1; return true; } print false and f(); print a;"),
        vec!["false", "0"]);
}

#[test]
fn conditional_evaluates_one_branch() {
    assert_eq!(prints("print 5 < 6 ? 1 - 2 : 4 * 3;"), vec!["-1"]);
    assert_eq!(prints("print nil ? 1 : 2;"), vec!["2"]);
    assert_eq!(prints("print true ? 1 : false ? 2 : 3;"), vec!["1"]);
    assert_eq!(prints("var a = 0; fun f() { a = a + 1; return a; } print true ? 7 : f(); print a;"),
        vec!["7", "0"]);
}

#[test]
fn assignment_gives_the_value_assigned() {
    assert_eq!(prints("var a; var b; a = b = 3; print a; print b; print a = 4;"), vec!["3", "3", "4"]);
    assert_eq!(runtime_error("a = 1;"), (1, "Undefined variable 'a'.".to_owned()));
    assert_eq!(runtime_error("\n\nprint b;"), (3, "Undefined variable 'b'.".to_owned()));
}

#[test]
fn global_redefinition_is_allowed() {
    assert_eq!(prints("var a = 1; var a = 2; print a; var b; print b;"), vec!["2", "nil"]);
}

#[test]
fn if_and_while() {
    assert_eq!(prints("if (1) print \"t\"; else print \"f\"; if (nil) print \"t\"; else print \"f\";"),
        vec!["t", "f"]);
    assert_eq!(prints("if (false) print 1;"), Vec::<String>::new());
    assert_eq!(prints("var i = 3; while (i > 0) { print i; i = i - 1; }"), vec!["3", "2", "1"]);
}

#[test]
fn calls_check_callee_and_arity() {
    assert_eq!(runtime_error("\"text\"();"), (1, "Can only call functions and classes.".to_owned()));
    assert_eq!(runtime_error("nil();"), (1, "Can only call functions and classes.".to_owned()));
    assert_eq!(runtime_error("fun f(a, b) {} f(1);"), (1, "Expected 2 arguments but got 1.".to_owned()));
    assert_eq!(runtime_error("fun f() {}\nf(1, 2, 3);"), (2, "Expected 0 arguments but got 3.".to_owned()));
    assert_eq!(runtime_error("class A { init(x) {} } A();"), (1, "Expected 1 arguments but got 0.".to_owned()));
    assert_eq!(runtime_error("class A {} A(1);"), (1, "Expected 0 arguments but got 1.".to_owned()));
    assert_eq!(runtime_error("clock(1);"), (1, "Expected 0 arguments but got 1.".to_owned()));
}

#[test]
fn arguments_are_evaluated_left_to_right() {
    assert_eq!(
        prints("fun show(x) { print x; return x; } fun add(a, b, c) { return a + b + c; } \
                print add(show(1), show(2), show(3));"),
        vec!["1", "2", "3", "6"]
    );
}

#[test]
fn functions_return_nil_without_return() {
    assert_eq!(prints("fun f() {} print f(); fun g() { return; } print g();"), vec!["nil", "nil"]);
    assert_eq!(prints("fun fib(n) { if (n < 2) return n; return fib(n - 1) + fib(n - 2); } print fib(15);"),
        vec!["610"]);
}

#[test]
fn properties_of_instances() {
    assert_eq!(prints("class A {} var a = A(); a.x = 1; a.x = a.x + 1; print a.x;"), vec!["2"]);
    assert_eq!(runtime_error("class A {} print A().missing;"), (1, "Undefined property 'missing'.".to_owned()));
    assert_eq!(runtime_error("print 1 .x;"), (1, "Only instances have properties.".to_owned()));
    assert_eq!(runtime_error("class A {} print A.x;"), (1, "Only instances have properties.".to_owned()));
    assert_eq!(runtime_error("var s = \"t\"; s.x = 1;"), (1, "Only instances have fields.".to_owned()));
}

#[test]
fn fields_shadow_methods() {
    assert_eq!(
        prints("class A { m() { return \"method\"; } } var a = A(); print a.m(); \
                fun f() { return \"field\"; } a.m = f; print a.m();"),
        vec!["method", "field"]
    );
}

#[test]
fn methods_bind_this() {
    assert_eq!(
        prints("class P { init(n) { this.n = n; } name() { return this.n; } } \
                var m = P(\"ann\").name; print m();"),
        vec!["ann"]
    );
    assert_eq!(
        prints("class C { init() { this.n = 0; } inc() { this.n = this.n + 1; return this; } } \
                print C().inc().inc().n;"),
        vec!["2"]
    );
}

#[test]
fn inheritance_finds_methods_up_the_chain() {
    assert_eq!(
        prints("class A { a() { return 1; } b() { return 2; } } class B < A { b() { return 3; } } \
                class C < B {} var c = C(); print c.a(); print c.b();"),
        vec!["1", "3"]
    );
    assert_eq!(
        prints("class A { init(x) { this.x = x; } } class B < A {} print B(7).x;"),
        vec!["7"]
    );
    assert_eq!(
        runtime_error("class A {} class B < A { m() { super.nope(); } } B().m();"),
        (1, "Undefined property 'nope'.".to_owned())
    );
    assert_eq!(
        runtime_error("var NotAClass = 1;\nclass B < NotAClass {}"),
        (2, "Superclass must be a class.".to_owned())
    );
}

#[test]
fn resolver_rejects_misplaced_keywords() {
    assert_eq!(static_error("return 1;"), (1, "Cannot return from top-level code".to_owned()));
    assert_eq!(static_error("print this;"), (1, "Can't use 'this' outside of a class.".to_owned()));
    assert_eq!(static_error("fun f() { super.x; }"), (1, "Can't use 'super' outside of a class.".to_owned()));
    assert_eq!(
        static_error("class A { m() { super.m(); } }"),
        (1, "Can't use 'super' in a class with no superclass.".to_owned())
    );
    assert_eq!(static_error("class A < A {}"), (1, "A class can't inherit from itself.".to_owned()));
    assert_eq!(
        static_error("{ var a = 1;\n var a = 2; }"),
        (2, "Variable with this name already exists in this scope.".to_owned())
    );
    assert_eq!(
        static_error("var a = 1; { var a = a; }"),
        (1, "Can't read local variable in its own initializer".to_owned())
    );
    assert_eq!(
        static_error("fun f(a, a) {}"),
        (1, "Variable with this name already exists in this scope.".to_owned())
    );
}

#[test]
fn the_budget_bounds_loops_and_calls() {
    let source = "var i = 0; while (true) { i = i + 1; }";
    let mut scanner = Scanner::new(source);
    let tokens = scanner.scan_tokens().unwrap();
    let statements = Parser::new(&tokens).parse().unwrap();
    let mut interpreter = Interpreter::new();
    interpreter.set_budget(10);
    match interpreter.interpret(&statements) {
        Err(LoxResult::RuntimeError { line, message }) => {
            assert_eq!(line, 0);
            assert_eq!(message, "Execution budget exhausted.");
        }
        other => panic!("{:?}", other),
    }

    let source = "fun f() { return f(); }\nf();";
    let mut scanner = Scanner::new(source);
    let tokens = scanner.scan_tokens().unwrap();
    let statements = Parser::new(&tokens).parse().unwrap();
    let mut interpreter = Interpreter::new();
    interpreter.set_budget(50);
    match interpreter.interpret(&statements) {
        Err(LoxResult::RuntimeError { line, message }) => {
            assert_eq!(line, 1);
            assert_eq!(message, "Execution budget exhausted.");
        }
        other => panic!("{:?}", other),
    }
}

#[test]
fn a_loop_within_its_budget_runs_to_the_end() {
    let source = "var i = 0; while (i < 10) i = i + 1; print i;";
    let mut scanner = Scanner::new(source);
    let tokens = scanner.scan_tokens().unwrap();
    let statements = Parser::new(&tokens).parse().unwrap();
    let mut interpreter = Interpreter::new();
    interpreter.set_budget(10);
    interpreter.interpret(&statements).unwrap();
    assert_eq!(interpreter.output(), &vec!["10".to_owned()]);
}

#[test]
fn clock_gives_the_reading_that_was_set() {
    let source = "print clock(); print clock() + 1;";
    let mut scanner = Scanner::new(source);
    let tokens = scanner.scan_tokens().unwrap();
    let statements = Parser::new(&tokens).parse().unwrap();
    let mut interpreter = Interpreter::new();
    interpreter.set_clock(number(12.5));
    interpreter.interpret(&statements).unwrap();
    assert_eq!(interpreter.output(), &vec!["12.5".to_owned(), "13.5".to_owned()]);
}

#[test]
fn the_current_scope_is_restored_after_an_error() {
    let source = "var a = 1; { var a = 2; { print a + nil; } }";
    let mut scanner = Scanner::new(source);
    let tokens = scanner.scan_tokens().unwrap();
    let statements = Parser::new(&tokens).parse().unwrap();
    let mut interpreter = Interpreter::new();
    let before = interpreter.environment;
    assert!(interpreter.interpret(&statements).is_err());
    assert_eq!(interpreter.environment, before);

    let mut scanner = Scanner::new("print a;");
    let tokens = scanner.scan_tokens().unwrap();
    let statements = Parser::new(&tokens).parse().unwrap();
    interpreter.interpret(&statements).unwrap();
    assert_eq!(interpreter.output(), &vec!["1".to_owned()]);
}

#[test]
fn execute_block_runs_in_the_given_scope_and_comes_back() {
    let mut scanner = Scanner::new("var a = 1;");
    let tokens = scanner.scan_tokens().unwrap();
    let outer = Parser::new(&tokens).parse().unwrap();
    let mut scanner = Scanner::new("print a;");
    let tokens = scanner.scan_tokens().unwrap();
    let inner = Parser::new(&tokens).parse().unwrap();
    let mut interpreter = Interpreter::new();
    interpreter.interpret(&outer).unwrap();
    let before = interpreter.environment;
    interpreter.execute_block(&inner, before).unwrap();
    assert_eq!(interpreter.environment, before);
    assert_eq!(interpreter.output(), &vec!["1".to_owned()]);
    assert!(interpreter.execute_block(&inner, 99).is_err());
    assert_eq!(interpreter.environment, before);
}

#[test]
fn truthiness_and_equality_of_values() {
    let interpreter = Interpreter::new();
    assert!(!interpreter.is_truthy(&Literal::Nil));
    assert!(!interpreter.is_truthy(&Literal::Boolean(false)));
    assert!(interpreter.is_truthy(&Literal::Boolean(true)));
    assert!(interpreter.is_truthy(&Literal::Number(number(0.0))));
    assert!(interpreter.is_truthy(&Literal::String(String::new())));
    assert!(interpreter.is_equal(Literal::Nil, Literal::Nil));
    assert!(!interpreter.is_equal(Literal::Nil, Literal::Boolean(false)));
    assert!(interpreter.is_equal(Literal::String("a".to_owned()), Literal::String("a".to_owned())));
    assert!(!interpreter.is_equal(Literal::Number(number(1.0)), Literal::String("1".to_owned())));
    assert!(interpreter.is_equal(Literal::Number(number(1.5)), Literal::Number(number(1.5))));
}

#[test]
fn reports_have_the_documented_form() {
    let (_, result) = run("print 1 +;\nvar = 2;");
    let lines = result.unwrap_err().report();
    assert_eq!(
        lines,
        vec![
            "[line 1] Error at ';': Expect expression.".to_owned(),
            "[line 2] Error at '=': Expect variable name.".to_owned(),
        ]
    );
    let (_, result) = run("print @;");
    assert_eq!(result.unwrap_err().report(), vec!["[line 1] Error: Unexpected character.".to_owned()]);
    let (_, result) = run("\nprint 1 / 0;");
    assert_eq!(result.unwrap_err().report(), vec!["Division by zero\n[line 2]".to_owned()]);
    let (_, result) = run("return;");
    assert_eq!(
        result.unwrap_err().report(),
        vec!["[line 1] Error: Cannot return from top-level code".to_owned()]
    );
}

#[test]
fn super_and_this_are_found_from_nested_scopes() {
    assert_eq!(
        prints(
            "class A { name() { return \"A\"; } } \
             class B < A { name() { return \"B\"; } \
               both() { { fun inner() { return super.name() + this.name(); } return inner(); } } } \
             print B().both();"
        ),
        vec!["AB"]
    );
}

#[test]
fn what_was_printed_stays_printed() {
    let mut scanner = Scanner::new("print 1;");
    let tokens = scanner.scan_tokens().unwrap();
    let first = Parser::new(&tokens).parse().unwrap();
    let mut scanner = Scanner::new("print 2; print nil + 1; print 3;");
    let tokens = scanner.scan_tokens().unwrap();
    let second = Parser::new(&tokens).parse().unwrap();
    let mut interpreter = Interpreter::new();
    interpreter.interpret(&first).unwrap();
    assert!(interpreter.interpret(&second).is_err());
    assert_eq!(interpreter.output(), &vec!["1".to_owned(), "2".to_owned()]);
}

#[test]
fn a_longer_program_runs_to_the_end() {
    assert_eq!(
        prints(
            "fun fib(n) { if (n < 2) return n; return fib(n - 1) + fib(n - 2); } \
             var total = 0; for (var i = 0; i < 20000; i = i + 1) { total = total + i; } \
             print total; print fib(18); \
             class Node { init(value, next) { this.value = value; this.next = next; } } \
             var list = nil; for (var i = 0; i < 200; i = i + 1) list = Node(i, list); \
             var sum = 0; while (list != nil) { sum = sum + list.value; list = list.next; } \
             print sum; var text = \"\"; for (var i = 0; i < 5; i = i + 1) text = text + i; print text;"
        ),
        vec!["199990000", "2584", "19900", "01234"]
    );
}
