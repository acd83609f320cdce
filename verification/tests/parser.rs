use lox::expr::{Expr, Literal};
use lox::lox_result::LoxResult;
use lox::parser::Parser;
use lox::scanner::Scanner;
use lox::stmt::Stmt;
use lox::token::Kind;

fn parse(source: &str) -> Result<Vec<Stmt>, LoxResult> {
    let mut scanner = Scanner::new(source);
    let tokens = scanner.scan_tokens().unwrap();
    let mut parser = Parser::new(&tokens);
    parser.parse()
}

fn causes(source: &str) -> Vec<(usize, Option<String>, String)> {
    match parse(source) {
        Err(LoxResult::ParseError { causes }) => {
            causes.into_iter().map(|c| (c.line, c.lexeme, c.message)).collect()
        }
        other => panic!("expected syntax errors, got {:?}", other),
    }
}

fn one_cause(source: &str, lexeme: &str, message: &str) {
    assert_eq!(causes(source), vec![(1, Some(lexeme.to_owned()), message.to_owned())], "{}", source);
}

/// The expression in prefix form, with every grouping shown.
fn show(e: &Expr) -> String {
    match e {
        Expr::Assign(a) => format!("(= {} {})", a.name.lexeme, show(&a.value)),
        Expr::Binary(b) => format!("({} {} {})", b.operator.lexeme, show(&b.left), show(&b.right)),
        Expr::Call(c) => {
            let mut s = format!("(call {}", show(&c.callee));
            for a in &c.arguments {
                s.push(' ');
                s.push_str(&show(a));
            }
            s.push(')');
            s
        }
        Expr::Conditional(c) => {
            format!("(?: {} {} {})", show(&c.condition), show(&c.left), show(&c.right))
        }
        Expr::Get(g) => format!("(. {} {})", show(&g.object), g.name.lexeme),
        Expr::Grouping(g) => format!("(group {})", show(&g.expression)),
        Expr::Literal(Literal::Number(n)) => format!("{}", n.units),
        Expr::Literal(Literal::String(s)) => format!("{:?}", s),
        Expr::Literal(Literal::Boolean(b)) => format!("{}", b),
        Expr::Literal(_) => "nil".to_owned(),
        Expr::Logical(l) => format!("({} {} {})", l.operator.lexeme, show(&l.left), show(&l.right)),
        Expr::SetField(s) => format!("(.= {} {} {})", show(&s.object), s.name.lexeme, show(&s.value)),
        Expr::Super(s) => format!("(super {})", s.method.lexeme),
        Expr::This(_) => "this".to_owned(),
        Expr::Unary(u) => format!("({} {})", u.operator.lexeme, show(&u.right)),
        Expr::Variable(v) => v.name.lexeme.clone(),
    }
}

fn shown(source: &str) -> String {
    let statements = parse(&format!("{};", source)).unwrap();
    assert_eq!(statements.len(), 1);
    match &statements[0] {
        Stmt::Expression(s) => show(&s.expression),
        other => panic!("{:?}", other),
    }
}

#[test]
fn binary_operators_group_to_the_left_by_precedence() {
    assert_eq!(shown("1+2*4-5"), "(- (+ 1000000 (* 2000000 4000000)) 5000000)");
    assert_eq!(shown("a - b - c"), "(- (- a b) c)");
    assert_eq!(shown("a / b * c"), "(* (/ a b) c)");
    assert_eq!(shown("a < b == c > d"), "(== (< a b) (> c d))");
    assert_eq!(shown("a == b != c"), "(!= (== a b) c)");
    assert_eq!(shown("a or b and c or d"), "(or (or a (and b c)) d)");
    assert_eq!(shown("a and b == c"), "(and a (== b c))");
    assert_eq!(shown("a + b <= c * d"), "(<= (+ a b) (* c d))");
}

#[test]
fn unary_and_grouping() {
    assert_eq!(
        shown("(!\"hello\" -3 + true) != \"hi\""),
        "(!= (group (+ (- (! \"hello\") 3000000) true)) \"hi\")"
    );
    assert_eq!(shown("!!a"), "(! (! a))");
    assert_eq!(shown("- -a"), "(- (- a))");
    assert_eq!(shown("-a.b"), "(- (. a b))");
}

#[test]
fn assignment_and_conditional_group_to_the_right() {
    assert_eq!(shown("a = b = c"), "(= a (= b c))");
    assert_eq!(shown("5 < 6 ? 1 - 2 : 4 * 3"), "(?: (< 5000000 6000000) (- 1000000 2000000) (* 4000000 3000000))");
    assert_eq!(shown("a ? b : c ? d : e"), "(?: a b (?: c d e))");
    assert_eq!(shown("a ? b ? c : d : e"), "(?: a (?: b c d) e)");
    assert_eq!(shown("a ? b = 1 : c"), "(?: a (= b 1000000) c)");
    assert_eq!(shown("a.b.c = d"), "(.= (. a b) c d)");
    assert_eq!(shown("a = b or c"), "(= a (or b c))");
}

#[test]
fn calls_and_properties_chain() {
    assert_eq!(shown("f()"), "(call f)");
    assert_eq!(shown("f(1, a)(b).c.d(e)"), "(call (. (. (call (call f 1000000 a) b) c) d) e)");
    assert_eq!(shown("this.x"), "(. this x)");
    assert_eq!(shown("super.m(1)"), "(call (super m) 1000000)");
    assert_eq!(shown("nil"), "nil");
}

#[test]
fn variable_shaped_expressions_get_different_ids() {
    let statements = parse("a; a; a = a; this; super.a;").unwrap();
    let mut ids = Vec::new();
    for s in &statements {
        match s {
            Stmt::Expression(x) => match &x.expression {
                Expr::Variable(v) => ids.push(v.id),
                Expr::Assign(a) => {
                    ids.push(a.id);
                    match &a.value {
                        Expr::Variable(v) => ids.push(v.id),
                        other => panic!("{:?}", other),
                    }
                }
                Expr::This(t) => ids.push(t.id),
                Expr::Super(s) => ids.push(s.id),
                other => panic!("{:?}", other),
            },
            other => panic!("{:?}", other),
        }
    }
    assert_eq!(ids, vec![0, 2, 4, 6, 8, 10]);
}

#[test]
fn for_desugars_to_while() {
    let statements = parse("for (var i = 0; i < 3; i = i + 1) print i;").unwrap();
    assert_eq!(statements.len(), 1);
    let outer = match &statements[0] {
        Stmt::Block(b) => &b.statements,
        other => panic!("{:?}", other),
    };
    assert_eq!(outer.len(), 2);
    assert!(matches!(&outer[0], Stmt::Var(v) if v.name.lexeme == "i"));
    let looped = match &outer[1] {
        Stmt::While(w) => w,
        other => panic!("{:?}", other),
    };
    assert_eq!(show(&looped.condition), "(< i 3000000)");
    let body = match &looped.body {
        Stmt::Block(b) => &b.statements,
        other => panic!("{:?}", other),
    };
    assert_eq!(body.len(), 2);
    assert!(matches!(&body[0], Stmt::Print(_)));
    match &body[1] {
        Stmt::Expression(x) => assert_eq!(show(&x.expression), "(= i (+ i 1000000))"),
        other => panic!("{:?}", other),
    }

    let statements = parse("for (;;) print 1;").unwrap();
    match &statements[0] {
        Stmt::While(w) => {
            assert_eq!(show(&w.condition), "true");
            assert!(matches!(&w.body, Stmt::Print(_)));
        }
        other => panic!("{:?}", other),
    }
}

#[test]
fn declarations() {
    let statements = parse(
        "var a; var b = 1; fun f(x, y) { return x; } class A < B { init() {} m(p) {} } {}",
    )
    .unwrap();
    assert_eq!(statements.len(), 5);
    assert!(matches!(&statements[0], Stmt::Var(v) if v.initializer.is_none()));
    assert!(matches!(&statements[1], Stmt::Var(v) if v.initializer.is_some()));
    match &statements[2] {
        Stmt::Function(f) => {
            assert_eq!(f.name.lexeme, "f");
            let params: Vec<&str> = f.params.iter().map(|p| p.lexeme.as_str()).collect();
            assert_eq!(params, vec!["x", "y"]);
            assert_eq!(f.body.len(), 1);
            assert!(matches!(&f.body[0], Stmt::Return(r) if r.value.is_some()));
        }
        other => panic!("{:?}", other),
    }
    match &statements[3] {
        Stmt::Class(c) => {
            assert_eq!(c.name.lexeme, "A");
            assert_eq!(c.superclass.as_ref().unwrap().name.lexeme, "B");
            let methods: Vec<&str> = c.methods.iter().map(|m| m.name.lexeme.as_str()).collect();
            assert_eq!(methods, vec!["init", "m"]);
            assert_eq!(c.methods[1].params.len(), 1);
        }
        other => panic!("{:?}", other),
    }
    assert!(matches!(&statements[4], Stmt::Block(b) if b.statements.is_empty()));
}

#[test]
fn if_and_return_statements() {
    let statements = parse("if (a) b; else c; if (a) if (b) c; else d; fun f() { return; }").unwrap();
    assert!(matches!(&statements[0], Stmt::If(i) if i.else_branch.is_some()));
    match &statements[1] {
        Stmt::If(i) => {
            assert!(i.else_branch.is_none());
            assert!(matches!(&i.then_branch, Stmt::If(inner) if inner.else_branch.is_some()));
        }
        other => panic!("{:?}", other),
    }
    match &statements[2] {
        Stmt::Function(f) => assert!(matches!(&f.body[0], Stmt::Return(r) if r.value.is_none()
            && r.keyword.kind() == Kind::Return)),
        other => panic!("{:?}", other),
    }
}

#[test]
fn each_grammar_point_has_its_message() {
    one_cause("print 1", "", "Expect ';' after expression");
    one_cause("1", "", "Expect ';' after expression.");
    one_cause("var 1;", "1", "Expect variable name.");
    one_cause("var a = 1", "", "Expect ';' after variable declaration.");
    one_cause("var a 1;", "1", "Expect ';' after variable declaration.");
    one_cause("(1;", ";", "Expect ')' after expression");
    one_cause("f(1;", ";", "Expect ')' after arguments.");
    one_cause("a.1;", "1", "Expect property name after '.'.");
    one_cause("a ? b;", ";", "Expect ':' after truthy expression");
    one_cause("+;", "+", "Expect expression.");
    one_cause("super;", ";", "Expect '.' after 'super'.");
    one_cause("super.1;", "1", "Expect superclass method name.");
    one_cause("while 1) a;", "1", "Expect '(' after 'while'.");
    one_cause("while (1 a;", "a", "Expect ')' after condition.");
    one_cause("if 1) a;", "1", "Expect '(' after if.");
    one_cause("if (1 a;", "a", "Expect ')' after if condition.");
    one_cause("for 1;;) a;", "1", "Expect '(' after 'for'.");
    one_cause("for (;1 2;) a;", "2", "Expect ';' after loop condition.");
    one_cause("for (;;1 2) a;", "2", "Expect ')' after for clauses.");
    one_cause("{ a;", "", "Expect '}' after block.");
    one_cause("fun 1() {}", "1", "Expect function name.");
    one_cause("fun f {}", "{", "Expect '(' after function name.");
    one_cause("fun f(1) {}", "1", "Expect parameter name.");
    one_cause("fun f(a, 1) {}", "1", "Expect parameter name.");
    one_cause("fun f(a b) {}", "b", "Expect ')' after parameters.");
    one_cause("fun f() 1", "1", "Expect '{' before function body.");
    one_cause("class 1 {}", "1", "Expect class name.");
    one_cause("class A < 1 {}", "1", "Expect superclass name.");
    one_cause("class A 1", "1", "Expect '{' before class body.");
    one_cause("class A { 1 }", "1", "Expect method name.");
    one_cause("class A { m }", "}", "Expect '(' after method name.");
    one_cause("class A { m() 1 }", "1", "Expect '{' before method body.");
    one_cause("class A { m() {}", "", "Expect '}' after class body.");
    one_cause("fun f() { return 1 }", "}", "Expect ';' after return value.");
}

#[test]
fn invalid_assignment_target_is_reported_and_parsing_goes_on() {
    assert_eq!(
        causes("1 = 2; (a) = 3;\nprint 4"),
        vec![
            (1, Some("=".to_owned()), "Invalid assignment target.".to_owned()),
            (1, Some("=".to_owned()), "Invalid assignment target.".to_owned()),
            (2, Some("".to_owned()), "Expect ';' after expression".to_owned()),
        ]
    );
}

#[test]
fn parser_synchronizes_at_the_next_statement_keyword() {
    assert_eq!(
        causes("var 1 = 2; 3 + ; print ); \nvar ok = 1; if x) y;"),
        vec![
            (1, Some("1".to_owned()), "Expect variable name.".to_owned()),
            (1, Some(")".to_owned()), "Expect expression.".to_owned()),
            (2, Some("x".to_owned()), "Expect '(' after if.".to_owned()),
        ]
    );
}

#[test]
fn more_than_255_arguments_are_reported_and_parsing_goes_on() {
    let arguments = vec!["1"; 256].join(", ");
    let found = causes(&format!("f({});\nprint 1", arguments));
    assert_eq!(
        found,
        vec![
            (1, Some("1".to_owned()), "Can't have more than 255 arguments.".to_owned()),
            (2, Some("".to_owned()), "Expect ';' after expression".to_owned()),
        ]
    );
    let arguments = vec!["1"; 255].join(", ");
    assert!(parse(&format!("f({});", arguments)).is_ok());
}

#[test]
fn more_than_255_parameters_are_reported_and_parsing_goes_on() {
    let names: Vec<String> = (0..256).map(|i| format!("p{}", i)).collect();
    let found = causes(&format!("fun f({}) {{}}\nprint 1", names.join(", ")));
    assert_eq!(
        found,
        vec![
            (1, Some("p255".to_owned()), "Can't have more than 255 parameters.".to_owned()),
            (2, Some("".to_owned()), "Expect ';' after expression".to_owned()),
        ]
    );
    assert!(parse(&format!("fun f({}) {{}}", names[..255].join(", "))).is_ok());
}

#[test]
fn an_empty_token_list_is_an_empty_program() {
    let mut parser = Parser::new(&[]);
    assert_eq!(parser.parse().unwrap().len(), 0);
    assert_eq!(parse("").unwrap().len(), 0);
    assert_eq!(parse("// nothing\n").unwrap().len(), 0);
}

#[test]
fn tokens_without_eof_end_the_program_all_the_same() {
    let mut scanner = Scanner::new("print 1; print");
    let mut tokens = scanner.scan_tokens().unwrap();
    tokens.pop();
    let mut parser = Parser::new(&tokens);
    match parser.parse() {
        Err(LoxResult::ParseError { causes }) => {
            assert_eq!(causes.len(), 1);
            assert_eq!(causes[0].message, "Expect expression.");
            assert_eq!(causes[0].line, 1);
            assert_eq!(causes[0].lexeme, Some(String::new()));
        }
        other => panic!("{:?}", other),
    }
}

#[test]
fn a_parser_may_start_inside_a_growing_token_list() {
    let mut scanner = Scanner::new("var a = 1;");
    let mut tokens = scanner.scan_tokens().unwrap();
    tokens.pop();
    let start = tokens.len();
    let mut scanner = Scanner::new("print a;");
    tokens.extend(scanner.scan_tokens().unwrap());
    let statements = Parser::starting_at(&tokens, start).parse().unwrap();
    assert_eq!(statements.len(), 1);
    match &statements[0] {
        Stmt::Print(p) => match &p.expression {
            Expr::Variable(v) => assert_eq!(v.id, start + 1),
            other => panic!("{:?}", other),
        },
        other => panic!("{:?}", other),
    }
    assert_eq!(Parser::starting_at(&tokens, 0).parse().unwrap().len(), 2);
    assert_eq!(Parser::starting_at(&tokens, 1000).parse().unwrap().len(), 0);
}
